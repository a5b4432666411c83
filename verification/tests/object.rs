use tilemap_core::object::{whole_units, FieldValue, Object, FRAME_SPAN, SUBUNITS};

const U: i64 = SUBUNITS;

fn sample(rotation: usize) -> Object {
    Object::new(16, 24, 100 * U, 200 * U, rotation, false)
}

#[test]
fn a_world_unit_has_sub_units() {
    assert_eq!(SUBUNITS, 65536);
    assert_eq!(whole_units(0), 0);
    assert_eq!(whole_units(3 * U), 3);
    assert_eq!(whole_units(3 * U + U - 1), 3);
    assert_eq!(whole_units(-3 * U), -3);
    assert_eq!(whole_units(-3 * U - U + 1), -3);
    assert_eq!(whole_units(-1), 0);
    assert_eq!(whole_units(i64::MAX), i64::MAX / U);
    assert_eq!(whole_units(i64::MIN), i64::MIN / U);
}

#[test]
fn new_object_is_at_rest() {
    let object = Object::new(16, 24, 100 * U, 200 * U, 2, true);
    assert_eq!(object.x, 100 * U);
    assert_eq!(object.y, 200 * U);
    assert_eq!(object.move_x, 0);
    assert_eq!(object.move_y, 0);
    assert_eq!(object.width, 16);
    assert_eq!(object.height, 24);
    assert_eq!(object.rotation, 2);
    assert!(object.flipped);
}

#[test]
fn move_is_relative_to_the_facing() {
    let expected = [(1, 0), (0, 1), (-1, 0), (0, -1)];
    for rotation in 0..4 {
        let mut object = sample(rotation);
        object.move_by(1, 0);
        assert_eq!((object.move_x, object.move_y), expected[rotation]);
        assert_eq!((object.x, object.y), (100 * U, 200 * U));
    }
}

#[test]
fn move_takes_parts_of_a_unit() {
    let mut object = sample(0);
    for _ in 0..4 {
        object.move_by(U / 4, 0);
    }
    assert_eq!((object.move_x, object.move_y), (U, 0));
}

#[test]
fn move_accumulates() {
    let mut object = sample(1);
    object.move_by(1, 0);
    object.move_by(2, 5);
    assert_eq!((object.move_x, object.move_y), (-5, 3));
    let mut far = sample(0);
    far.move_by(i64::MAX, 0);
    far.move_by(1, 0);
    assert_eq!(far.move_x, i64::MAX);
}

#[test]
fn rotate_normalizes_into_four() {
    let mut object = sample(0);
    object.rotate(5);
    assert_eq!(object.rotation, 1);
    object.rotate(-1);
    assert_eq!(object.rotation, 3);
    object.rotate(-8);
    assert_eq!(object.rotation, 0);
    assert_eq!((object.x, object.y), (100 * U, 200 * U));
}

#[test]
fn flip_sets_the_flag() {
    let mut object = sample(0);
    object.flip(true);
    assert!(object.flipped);
    object.flip(false);
    assert!(!object.flipped);
}

#[test]
fn script_position_is_turned_into_the_facing_frame() {
    assert_eq!(FRAME_SPAN, 2048);
    assert_eq!((sample(0).script_x(), sample(0).script_y()), (100 * U, 200 * U));
    assert_eq!((sample(1).script_x(), sample(1).script_y()), (200 * U, 1948 * U));
    assert_eq!((sample(2).script_x(), sample(2).script_y()), (1948 * U, 1848 * U));
    assert_eq!((sample(3).script_x(), sample(3).script_y()), (1848 * U, 124 * U));
}

#[test]
fn unturned_object_shows_its_top_left_corner() {
    let object = Object::new(16, 16, 10 * U, 20 * U, 0, false);
    assert_eq!(object.get("x"), Some(FieldValue::Number(10 * U)));
    assert_eq!(object.get("y"), Some(FieldValue::Number(20 * U)));
    assert_eq!(object, Object::new(16, 16, 10 * U, 20 * U, 0, false));
}

#[test]
fn fields_are_read_by_name() {
    let mut object = sample(3);
    object.flip(true);
    assert_eq!(object.get("x"), Some(FieldValue::Number(1848 * U)));
    assert_eq!(object.get("y"), Some(FieldValue::Number(124 * U)));
    assert_eq!(object.get("width"), Some(FieldValue::Number(16 * U)));
    assert_eq!(object.get("height"), Some(FieldValue::Number(24 * U)));
    assert_eq!(object.get("rotation"), Some(FieldValue::Integer(3)));
    assert_eq!(object.get("flipped"), Some(FieldValue::Boolean(true)));
    assert_eq!(object.get("speed"), None);
    assert_eq!(object.get(""), None);
    assert_eq!(object.get("X"), None);
}

#[test]
fn pending_move_and_candidate() {
    let mut object = sample(0);
    assert!(!object.has_pending_move());
    assert_eq!(object.candidate_position(), (100 * U, 200 * U));
    object.move_by(10 * U, -3 * U);
    assert!(object.has_pending_move());
    assert_eq!(object.candidate_position(), (110 * U, 197 * U));
}
