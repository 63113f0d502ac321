use canvas_pdf::buffer::{
    buffer_bring_to_front, editing_shape, export_shape, exported_slots, topmost_hit, ShapeKind,
    NO_OBJECT, STRIDE,
};

fn object(tag: f64) -> Vec<f64> {
    (0..STRIDE).map(|k| tag * 10.0 + k as f64).collect()
}

fn buffer_of(tags: &[f64]) -> Vec<f64> {
    tags.iter().flat_map(|t| object(*t)).collect()
}

#[test]
fn kind_codes_while_editing() {
    assert_eq!(editing_shape(0), ShapeKind::Circle);
    assert_eq!(editing_shape(1), ShapeKind::TextBox);
    assert_eq!(editing_shape(7), ShapeKind::TextBox);
}

#[test]
fn kind_codes_on_export() {
    assert_eq!(export_shape(0), Some(ShapeKind::Circle));
    assert_eq!(export_shape(1), Some(ShapeKind::TextBox));
    assert_eq!(export_shape(2), None);
    assert_eq!(export_shape(255), None);
}

#[test]
fn exported_objects_keep_their_editing_shape() {
    for code in 0..=255u8 {
        if let Some(shape) = export_shape(code) {
            assert_eq!(shape, editing_shape(code));
        } else {
            assert!(code > 1);
        }
    }
}

#[test]
fn hit_test_on_empty_buffer_finds_nothing() {
    assert_eq!(topmost_hit(&[]), NO_OBJECT);
    assert_eq!(topmost_hit(&[false, false, false]), u32::MAX);
}

#[test]
fn hit_test_prefers_the_topmost_object() {
    assert_eq!(topmost_hit(&[true, false, true, false]), 2);
    assert_eq!(topmost_hit(&[true, false, false]), 0);
    assert_eq!(topmost_hit(&[true, true, true]), 2);
}

#[test]
fn bring_to_front_moves_object_to_the_top() {
    let mut buf = buffer_of(&[1.0, 2.0, 3.0, 4.0]);
    buffer_bring_to_front(&mut buf, 1, 4);
    assert_eq!(buf, buffer_of(&[1.0, 3.0, 4.0, 2.0]));
}

#[test]
fn bring_to_front_of_the_bottom_object() {
    let mut buf = buffer_of(&[1.0, 2.0, 3.0]);
    buffer_bring_to_front(&mut buf, 0, 3);
    assert_eq!(buf, buffer_of(&[2.0, 3.0, 1.0]));
}

#[test]
fn bring_to_front_of_the_top_object_changes_nothing() {
    let mut buf = buffer_of(&[1.0, 2.0, 3.0]);
    buffer_bring_to_front(&mut buf, 2, 3);
    assert_eq!(buf, buffer_of(&[1.0, 2.0, 3.0]));
    buffer_bring_to_front(&mut buf, 9, 3);
    assert_eq!(buf, buffer_of(&[1.0, 2.0, 3.0]));
}

#[test]
fn bring_to_front_leaves_slots_past_count_alone() {
    let mut buf = buffer_of(&[1.0, 2.0, 3.0, 4.0]);
    buffer_bring_to_front(&mut buf, 0, 3);
    assert_eq!(buf, buffer_of(&[2.0, 3.0, 1.0, 4.0]));
}

#[test]
fn bring_to_front_only_reorders() {
    let mut buf = buffer_of(&[5.0, 1.0, 4.0, 2.0, 3.0]);
    let mut before = buf.clone();
    buffer_bring_to_front(&mut buf, 2, 5);
    let mut after = buf.clone();
    before.sort_by(|a, b| a.partial_cmp(b).unwrap());
    after.sort_by(|a, b| a.partial_cmp(b).unwrap());
    assert_eq!(before, after);
}

#[test]
fn bring_to_front_on_integers() {
    let mut buf: Vec<u8> = (0..24).collect();
    buffer_bring_to_front(&mut buf, 0, 3);
    let expected: Vec<u8> = (8..24).chain(0..8).collect();
    assert_eq!(buf, expected);
}

#[test]
fn exported_slots_keep_order_and_index() {
    assert_eq!(
        exported_slots(&[1, 5, 0, 2, 1]),
        vec![(0, ShapeKind::TextBox), (2, ShapeKind::Circle), (4, ShapeKind::TextBox)]
    );
    assert_eq!(exported_slots(&[]), vec![]);
    assert_eq!(exported_slots(&[9, 9]), vec![]);
}

#[test]
fn front_object_wins_the_hit_test() {
    // An object is hit when its first slot is 1.
    let mut buf = vec![0u8; 4 * STRIDE];
    buf[STRIDE] = 1;
    buf[3 * STRIDE] = 1;
    buffer_bring_to_front(&mut buf, 1, 4);
    let hits: Vec<bool> = (0..4).map(|o| buf[o * STRIDE] == 1).collect();
    assert_eq!(topmost_hit(&hits), 3);
}
