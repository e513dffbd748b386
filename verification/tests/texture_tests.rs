use rasterizer::texture::DepthTexture;
use rasterizer::texture::Sampler;
use rasterizer::texture::Texture;

#[test]
fn new_texture_is_black() {
    let t = Texture::new(4, 3);
    assert_eq!(t.width(), 4);
    assert_eq!(t.height(), 3);
    for j in 0..3 {
        for i in 0..4 {
            assert_eq!(t.read(i, j), 0);
        }
    }
}

#[test]
fn write_then_read() {
    let mut t = Texture::new(8, 8);
    t.write(3, 5, 0xFF00FF00);
    assert_eq!(t.read(3, 5), 0xFF00FF00);
    assert_eq!(t.read(5, 3), 0);
}

#[test]
fn clear_sets_every_pixel() {
    let mut t = Texture::new(5, 5);
    t.write(1, 1, 7);
    t.clear(0xFFFF0000);
    for j in 0..5 {
        for i in 0..5 {
            assert_eq!(t.read(i, j), 0xFFFF0000);
        }
    }
}

#[test]
fn from_data_round_trips_through_as_slice() {
    let data = vec![1u32, 2, 3, 4, 5, 6];
    let t = Texture::from_data(data.clone(), 3, 2);
    assert_eq!(t.as_slice(), &data[..]);
    assert_eq!(t.read(0, 0), 1);
    assert_eq!(t.read(2, 1), 6);
}

#[test]
fn from_bytes_three_channels() {
    // A 2x1 RGB image: a red texel then a blue texel, alpha forced
    // opaque.
    let bytes = [255u8, 0, 0, 0, 0, 255];
    let t = Texture::from_bytes(&bytes, 2, 1, 3).unwrap();
    assert_eq!(t.read(0, 0), 0xFFFF0000);
    assert_eq!(t.read(1, 0), 0xFF0000FF);
}

#[test]
fn from_bytes_four_channels() {
    // A single RGBA texel: the alpha byte lands in the top byte.
    let bytes = [0x11u8, 0x22, 0x33, 0x44];
    let t = Texture::from_bytes(&bytes, 1, 1, 4).unwrap();
    assert_eq!(t.read(0, 0), 0x44112233);
}

#[test]
fn from_bytes_rejects_other_layouts() {
    let bytes = [1u8, 2];
    assert!(Texture::from_bytes(&bytes, 1, 1, 2).is_none());
    let bytes = [1u8];
    assert!(Texture::from_bytes(&bytes, 1, 1, 1).is_none());
}

#[test]
fn new_depth_texture_is_far() {
    let d = DepthTexture::new(3, 2);
    assert_eq!(d.width(), 3);
    assert_eq!(d.height(), 2);
    for j in 0..2 {
        for i in 0..3 {
            assert_eq!(d.read(i, j), u32::MAX);
        }
    }
}

#[test]
fn depth_test_passes_only_nearer_values() {
    let mut d = DepthTexture::new(4, 4);
    // The first finite value always beats the far plane.
    assert!(d.depth_test(2, 1, 500));
    assert_eq!(d.read(2, 1), 500);
    // Equal depth fails and leaves the stored value alone.
    assert!(!d.depth_test(2, 1, 500));
    assert_eq!(d.read(2, 1), 500);
    // Farther depth fails too.
    assert!(!d.depth_test(2, 1, 501));
    assert_eq!(d.read(2, 1), 500);
    // Nearer depth passes and updates the buffer.
    assert!(d.depth_test(2, 1, 499));
    assert_eq!(d.read(2, 1), 499);
    // Other pixels are untouched throughout.
    assert_eq!(d.read(1, 2), u32::MAX);
}

#[test]
fn depth_codes_order_like_floats() {
    // The IEEE bit pattern of a non-negative float is an
    // order-preserving depth code.
    let near = 0.25f32.to_bits();
    let mid = 0.5f32.to_bits();
    let far = 1.0f32.to_bits();
    assert!(near < mid && mid < far);
    let mut d = DepthTexture::new(2, 2);
    d.clear(far);
    assert!(d.depth_test(0, 0, mid));
    assert!(!d.depth_test(0, 0, far));
    assert!(d.depth_test(0, 0, near));
}

#[test]
fn sampler_reads_in_range_texels() {
    let t = Texture::from_data(vec![10, 20, 30, 40], 2, 2);
    let s = Sampler {};
    assert_eq!(s.sample(&t, 0, 0), 10);
    assert_eq!(s.sample(&t, 1, 0), 20);
    assert_eq!(s.sample(&t, 0, 1), 30);
    assert_eq!(s.sample(&t, 1, 1), 40);
}

#[test]
fn sampler_clamps_to_edge() {
    let t = Texture::from_data(vec![10, 20, 30, 40], 2, 2);
    let s = Sampler {};
    assert_eq!(s.sample(&t, 5, 0), 20);
    assert_eq!(s.sample(&t, 0, 9), 30);
    assert_eq!(s.sample(&t, 7, 7), 40);
}
