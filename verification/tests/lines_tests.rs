use rasterizer::lines::draw_line;
use rasterizer::texture::Texture;

#[test]
fn horizontal_line_covers_its_row() {
    let mut t = Texture::new(8, 4);
    draw_line(&mut t, 1, 2, 6, 2, 0xFF00FF00);
    for i in 1..7 {
        assert_eq!(t.read(i, 2), 0xFF00FF00);
    }
    assert_eq!(t.read(0, 2), 0);
    assert_eq!(t.read(7, 2), 0);
    assert_eq!(t.read(3, 1), 0);
    assert_eq!(t.read(3, 3), 0);
}

#[test]
fn diagonal_line_hits_both_endpoints() {
    let mut t = Texture::new(8, 8);
    draw_line(&mut t, 0, 0, 7, 7, 0xAA);
    assert_eq!(t.read(0, 0), 0xAA);
    assert_eq!(t.read(7, 7), 0xAA);
    // The exact diagonal visits every pixel on it.
    for k in 0..8 {
        assert_eq!(t.read(k, k), 0xAA);
    }
    // Pixels well off the diagonal stay untouched.
    assert_eq!(t.read(7, 0), 0);
    assert_eq!(t.read(0, 7), 0);
}

#[test]
fn reversed_endpoints_still_draw_endpoints() {
    let mut t = Texture::new(10, 10);
    draw_line(&mut t, 9, 2, 1, 8, 0x77);
    assert_eq!(t.read(9, 2), 0x77);
    assert_eq!(t.read(1, 8), 0x77);
    // Nothing lands outside the rectangle spanned by the endpoints.
    for j in 0..10 {
        for i in 0..10 {
            if !(1..=9).contains(&i) || !(2..=8).contains(&j) {
                assert_eq!(t.read(i, j), 0);
            }
        }
    }
}

#[test]
fn single_pixel_line() {
    let mut t = Texture::new(3, 3);
    draw_line(&mut t, 1, 1, 1, 1, 0x5);
    assert_eq!(t.read(1, 1), 0x5);
    assert_eq!(t.read(0, 0), 0);
    assert_eq!(t.read(2, 2), 0);
}

#[test]
fn shallow_line_stays_in_segment_rect() {
    let mut t = Texture::new(16, 4);
    draw_line(&mut t, 0, 1, 15, 2, 0x9);
    assert_eq!(t.read(0, 1), 0x9);
    assert_eq!(t.read(15, 2), 0x9);
    let mut painted = 0;
    for j in 0..4 {
        for i in 0..16 {
            if t.read(i, j) == 0x9 {
                painted += 1;
                assert!((1..=2).contains(&j));
            }
        }
    }
    // One pixel per column, endpoints included.
    assert_eq!(painted, 16);
}
