use rasterizer::bounding_box::BoundingBox;
use rasterizer::bounding_box::Vec2u;

fn box_of(sx: u32, sy: u32, ex: u32, ey: u32) -> BoundingBox {
    BoundingBox::new(Vec2u::new(sx, sy), Vec2u::new(ex, ey))
}

#[test]
fn intersection() {
    let a = box_of(100, 100, 200, 200);
    let b = box_of(50, 50, 150, 150);
    let c = a.intersect(&b).unwrap();
    assert!(c.start.x == 100 && c.start.y == 100 && c.end.x == 150 && c.end.y == 150)
}

#[test]
fn no_intersection() {
    let b = box_of(50, 50, 150, 150);
    let c = box_of(200, 200, 300, 300);
    let i = c.intersect(&b);
    assert!(i.is_none());
}

#[test]
fn intersection_is_symmetric() {
    let a = box_of(100, 100, 200, 200);
    let b = box_of(50, 50, 150, 150);
    let ab = a.intersect(&b).unwrap();
    let ba = b.intersect(&a).unwrap();
    assert_eq!(ab, ba);
}

#[test]
fn shared_edge_intersects() {
    // Inclusive corner semantics: boxes meeting exactly at a corner
    // still intersect, in a single point.
    let a = box_of(100, 100, 200, 200);
    let c = box_of(200, 200, 300, 300);
    let i = a.intersect(&c).unwrap();
    assert_eq!(i, box_of(200, 200, 200, 200));
}

#[test]
fn disjoint_on_one_axis_only() {
    // Overlapping x projections, disjoint y projections.
    let a = box_of(0, 0, 100, 100);
    let b = box_of(50, 101, 150, 200);
    assert!(a.intersect(&b).is_none());
    assert!(b.intersect(&a).is_none());
}
