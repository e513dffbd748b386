use rasterizer::clip::clip_step;

#[test]
fn fully_inside_polygon_is_unchanged() {
    let polygon = vec![10u32, 20, 30, 40, 50];
    let inside = vec![true; 5];
    let crossings: Vec<Option<u32>> = vec![None; 5];
    assert_eq!(clip_step(&polygon, &inside, &crossings), polygon);
}

#[test]
fn fully_outside_polygon_is_emptied() {
    let polygon = vec![10u32, 20, 30];
    let inside = vec![false; 3];
    let crossings: Vec<Option<u32>> = vec![None; 3];
    assert!(clip_step(&polygon, &inside, &crossings).is_empty());
}

#[test]
fn straddling_edges_insert_their_crossings() {
    // A triangle with one vertex outside: the two edges touching it
    // cross the boundary, so the outside vertex is replaced by the two
    // crossing points, in walk order.
    let polygon = vec![1u32, 2, 3];
    let inside = vec![true, true, false];
    let crossings = vec![None, Some(97), Some(98)];
    assert_eq!(clip_step(&polygon, &inside, &crossings), vec![1, 2, 97, 98]);
}

#[test]
fn empty_polygon_stays_empty() {
    let polygon: Vec<u32> = Vec::new();
    let inside: Vec<bool> = Vec::new();
    let crossings: Vec<Option<u32>> = Vec::new();
    assert!(clip_step(&polygon, &inside, &crossings).is_empty());
}
