use tilemap_core::object::SUBUNITS;
use tilemap_core::orientation::{
    add_saturating, decode, negate_saturating, normalize_rotation, object_flipped, rotate_delta,
    rotation_from_angle, split_cell,
};

fn degrees(whole: i64) -> i64 {
    whole * SUBUNITS
}

#[test]
fn decode_matches_the_table() {
    assert_eq!(decode(0b000), (0, false));
    assert_eq!(decode(0b101), (1, false));
    assert_eq!(decode(0b110), (2, false));
    assert_eq!(decode(0b011), (3, false));
    assert_eq!(decode(0b100), (0, true));
    assert_eq!(decode(0b111), (1, true));
    assert_eq!(decode(0b010), (2, true));
    assert_eq!(decode(0b001), (3, true));
}

#[test]
fn decode_covers_each_orientation_once() {
    let mut seen = Vec::new();
    for pattern in 0..8u32 {
        let decoded = decode(pattern);
        assert!(decoded.0 < 4);
        assert!(!seen.contains(&decoded));
        seen.push(decoded);
    }
    assert_eq!(seen.len(), 8);
}

#[test]
fn split_cell_takes_the_top_three_bits() {
    assert_eq!(split_cell(0), (0, 0));
    assert_eq!(split_cell(5), (5, 0));
    assert_eq!(split_cell(0xa000_0007), (7, 0b101));
    assert_eq!(split_cell(0xffff_ffff), (0x1fff_ffff, 0b111));
    assert_eq!(split_cell(0x2000_0000), (0, 0b001));
    assert_eq!(split_cell(0x1fff_ffff), (0x1fff_ffff, 0));
}

#[test]
fn object_flip_is_the_top_bit() {
    assert!(!object_flipped(0));
    assert!(!object_flipped(0x7fff_ffff));
    assert!(object_flipped(0x8000_0000));
    assert!(object_flipped(0x8000_0003));
}

#[test]
fn normalize_rotation_handles_negative_turns() {
    assert_eq!(normalize_rotation(0), 0);
    assert_eq!(normalize_rotation(3), 3);
    assert_eq!(normalize_rotation(4), 0);
    assert_eq!(normalize_rotation(5), 1);
    assert_eq!(normalize_rotation(-1), 3);
    assert_eq!(normalize_rotation(-4), 0);
    assert_eq!(normalize_rotation(-5), 3);
    assert_eq!(normalize_rotation(i64::MAX), 3);
    assert_eq!(normalize_rotation(i64::MIN), 0);
}

#[test]
fn rotation_from_angle_rounds_to_the_nearest_quarter() {
    assert_eq!(rotation_from_angle(degrees(0)), 0);
    assert_eq!(rotation_from_angle(degrees(44)), 0);
    assert_eq!(rotation_from_angle(degrees(45)), 1);
    assert_eq!(rotation_from_angle(degrees(90)), 1);
    assert_eq!(rotation_from_angle(degrees(134)), 1);
    assert_eq!(rotation_from_angle(degrees(135)), 2);
    assert_eq!(rotation_from_angle(degrees(180)), 2);
    assert_eq!(rotation_from_angle(degrees(270)), 3);
    assert_eq!(rotation_from_angle(degrees(360)), 0);
    assert_eq!(rotation_from_angle(degrees(-44)), 0);
    assert_eq!(rotation_from_angle(degrees(-45)), 3);
    assert_eq!(rotation_from_angle(degrees(-90)), 3);
    assert_eq!(rotation_from_angle(degrees(-180)), 2);
}

#[test]
fn rotation_from_angle_sees_parts_of_a_degree() {
    assert_eq!(rotation_from_angle(degrees(45) - 1), 0);
    assert_eq!(rotation_from_angle(degrees(446) / 10), 0);
    assert_eq!(rotation_from_angle(degrees(454) / 10), 1);
    assert_eq!(rotation_from_angle(1 - degrees(45)), 0);
    assert_eq!(rotation_from_angle(i64::MAX), rotation_from_angle(i64::MAX - degrees(360)));
    assert_eq!(rotation_from_angle(i64::MIN), rotation_from_angle(i64::MIN + degrees(360)));
}

#[test]
fn rotate_delta_follows_the_facing() {
    assert_eq!(rotate_delta(0, 1, 0), (1, 0));
    assert_eq!(rotate_delta(1, 1, 0), (0, 1));
    assert_eq!(rotate_delta(2, 1, 0), (-1, 0));
    assert_eq!(rotate_delta(3, 1, 0), (0, -1));
    assert_eq!(rotate_delta(0, 3, 7), (3, 7));
    assert_eq!(rotate_delta(1, 3, 7), (-7, 3));
    assert_eq!(rotate_delta(2, 3, 7), (-3, -7));
    assert_eq!(rotate_delta(3, 3, 7), (7, -3));
}

#[test]
fn rotate_delta_four_quarter_turns_come_round() {
    let mut step = (5i64, -9i64);
    for _ in 0..4 {
        step = rotate_delta(1, step.0, step.1);
    }
    assert_eq!(step, (5, -9));
}

#[test]
fn saturating_helpers_hold_at_the_bounds() {
    assert_eq!(add_saturating(1, 2), 3);
    assert_eq!(add_saturating(i64::MAX, 1), i64::MAX);
    assert_eq!(add_saturating(i64::MIN, -1), i64::MIN);
    assert_eq!(add_saturating(i64::MIN, i64::MAX), -1);
    assert_eq!(negate_saturating(5), -5);
    assert_eq!(negate_saturating(i64::MIN), i64::MAX);
    assert_eq!(rotate_delta(2, i64::MIN, 0), (i64::MAX, 0));
}
