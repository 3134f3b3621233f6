use square_shooter::geometry::{collision, offset, shift};

#[test]
fn boxes_touching_at_an_edge_do_not_overlap() {
    assert!(!collision((0, 0), (10, 0), (10, 10), (10, 10)));
    assert!(!collision((10, 0), (0, 0), (10, 10), (10, 10)));
    assert!(!collision((0, 0), (0, 10), (10, 10), (10, 10)));
    assert!(!collision((0, 10), (0, 0), (10, 10), (10, 10)));
}

#[test]
fn boxes_touching_at_a_corner_do_not_overlap() {
    assert!(!collision((0, 0), (10, 10), (10, 10), (10, 10)));
    assert!(!collision((10, 10), (0, 0), (10, 10), (10, 10)));
}

#[test]
fn boxes_overlapping_by_one_pixel_overlap() {
    assert!(collision((0, 0), (9, 0), (10, 10), (10, 10)));
    assert!(collision((9, 0), (0, 0), (10, 10), (10, 10)));
    assert!(collision((0, 0), (0, 9), (10, 10), (10, 10)));
    assert!(collision((0, 0), (9, 9), (10, 10), (10, 10)));
}

#[test]
fn overlap_needs_both_axes() {
    assert!(!collision((0, 0), (5, 20), (10, 10), (10, 10)));
    assert!(!collision((0, 0), (20, 5), (10, 10), (10, 10)));
}

#[test]
fn a_box_inside_another_overlaps_it() {
    assert!(collision((0, 0), (10, 10), (40, 40), (10, 10)));
    assert!(collision((10, 10), (0, 0), (10, 10), (40, 40)));
    assert!(collision((3, 4), (3, 4), (40, 40), (40, 40)));
}

#[test]
fn boxes_far_apart_do_not_overlap() {
    assert!(!collision((-50, -50), (0, 0), (40, 40), (40, 40)));
    assert!(!collision((8050, 650), (0, 0), (40, 40), (40, 40)));
}

#[test]
fn a_box_of_no_size_overlaps_nothing_it_only_touches() {
    assert!(!collision((0, 0), (0, 0), (0, 0), (10, 10)));
    assert!(collision((5, 5), (0, 0), (0, 0), (10, 10)));
}

#[test]
fn collision_is_exact_at_the_ends_of_the_range() {
    assert!(collision((i32::MAX, i32::MAX), (i32::MAX, i32::MAX), (40, 40), (40, 40)));
    assert!(!collision((i32::MAX, 0), (i32::MIN, 0), (i32::MAX, 10), (10, 10)));
    assert!(collision((i32::MIN, 0), (i32::MIN + 5, 0), (10, 10), (10, 10)));
    assert!(!collision((i32::MIN, i32::MIN), (i32::MAX, i32::MAX), (i32::MAX, i32::MAX), (1, 1)));
}

#[test]
fn collision_does_not_depend_on_the_order_of_the_boxes() {
    let boxes = [
        ((0, 0), (10, 10)),
        ((9, 9), (10, 10)),
        ((10, 0), (40, 40)),
        ((-5, 30), (10, 10)),
        ((45, 45), (10, 10)),
    ];
    for a in boxes.iter() {
        for b in boxes.iter() {
            assert_eq!(collision(a.0, b.0, a.1, b.1), collision(b.0, a.0, b.1, a.1));
        }
    }
}

#[test]
fn shift_adds_each_coordinate() {
    assert_eq!(shift((10, 20), (3, -4)), (13, 16));
    assert_eq!(shift((-50, -50), (8, 8)), (-42, -42));
    assert_eq!(shift((7, 9), (0, 0)), (7, 9));
}

#[test]
fn shift_wraps_around() {
    assert_eq!(shift((i32::MAX, 0), (1, 0)), (i32::MIN, 0));
    assert_eq!(shift((0, i32::MIN), (0, -1)), (0, i32::MAX));
}

#[test]
fn offset_leads_from_the_first_to_the_second() {
    assert_eq!(offset((-50, -50), (0, 0)), (50, 50));
    assert_eq!(offset((850, -50), (400, 300)), (-450, 350));
    assert_eq!(offset((5, 5), (5, 5)), (0, 0));
    assert_eq!(shift((-50, 650), offset((-50, 650), (12, 34))), (12, 34));
}

#[test]
fn offset_wraps_around() {
    assert_eq!(offset((i32::MAX, 0), (i32::MIN, 0)), (1, 0));
    assert_eq!(offset((1, 0), (i32::MIN, 0)), (i32::MAX, 0));
}
