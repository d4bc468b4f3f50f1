use gnworld::rect::{max_int_value, min_int_value, Rect};

#[test]
fn contains_point_follows_half_open_edges() {
    let rect = Rect::new(1, 2, 3, 4);
    assert!(rect.contains_point((1, 2)));
    assert!(!rect.contains_point((0, 1)));
    assert!(rect.contains_point((3, 5)));
    assert!(!rect.contains_point((4, 6)));
    assert!(!rect.contains_point((4, 5)));
    assert!(!rect.contains_point((3, 6)));
}

#[test]
fn edges_of_a_rect() {
    let rect = Rect::new(10, -5, 7, 3);
    assert_eq!(rect.left(), 10);
    assert_eq!(rect.right(), 17);
    assert_eq!(rect.top(), -5);
    assert_eq!(rect.bottom(), -2);
    assert_eq!(rect.width(), 7);
    assert_eq!(rect.height(), 3);
}

#[test]
fn empty_size_becomes_one() {
    let rect = Rect::new(0, 0, 0, 0);
    assert_eq!(rect.width(), 1);
    assert_eq!(rect.height(), 1);
    assert!(rect.contains_point((0, 0)));
    assert!(!rect.contains_point((1, 0)));
    assert!(!rect.contains_point((0, 1)));
    assert!(!rect.contains_point((-1, 0)));
}

#[test]
fn out_of_range_values_are_clamped() {
    assert_eq!(max_int_value(), 1073741823);
    assert_eq!(min_int_value(), -1073741824);
    let rect = Rect::new(i32::MAX, i32::MIN, u32::MAX, 5);
    assert_eq!(rect.left(), 1073741823);
    assert_eq!(rect.top(), -1073741824);
    assert_eq!(rect.width(), 1073741823);
    assert_eq!(rect.height(), 5);
    assert_eq!(rect.right(), 2147483646);
    assert_eq!(rect.bottom(), -1073741819);
}

#[test]
fn unit_rect_holds_one_point() {
    let rect = Rect::new(-3, 8, 1, 1);
    let mut inside = 0;
    for x in -5..0 {
        for y in 6..11 {
            if rect.contains_point((x, y)) {
                inside += 1;
                assert_eq!((x, y), (-3, 8));
            }
        }
    }
    assert_eq!(inside, 1);
}
