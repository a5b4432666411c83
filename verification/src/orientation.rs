//! Rotation and flip encoding of placed tiles.
//!
//! A map cell packs a global tile id into its low 29 bits and three flip flags
//! into its top 3 bits. The flags select one of four quarter-turn rotations
//! and a mirror flag.

use vstd::prelude::*;
use crate::object::SUBUNITS;

verus! {

/// Number of distinct values of the global tile id in a packed cell (2^29).
pub const GID_SPAN: u32 = 0x2000_0000;

/// The quarter-turn rotation selected by a 3-bit flag pattern.
pub open spec fn spec_rotation(pattern: int) -> int {
    if pattern == 0 || pattern == 4 {
        0
    } else if pattern == 5 || pattern == 7 {
        1
    } else if pattern == 6 || pattern == 2 {
        2
    } else {
        3
    }
}

/// Whether a 3-bit flag pattern mirrors the tile.
pub open spec fn spec_flipped(pattern: int) -> bool {
    pattern == 4 || pattern == 7 || pattern == 2 || pattern == 1
}

/// The global tile id held in the low 29 bits of a packed cell.
pub open spec fn spec_gid(raw: u32) -> int {
    raw as int % 0x2000_0000
}

/// The 3-bit flag pattern held in the top bits of a packed cell.
pub open spec fn spec_pattern(raw: u32) -> int {
    raw as int / 0x2000_0000
}

/// Decodes a 3-bit flag pattern into `(rotation, flipped)`.
pub fn decode(pattern: u32) -> (r: (usize, bool))
    requires
        pattern < 8,
    ensures
        r.0 == spec_rotation(pattern as int),
        r.1 == spec_flipped(pattern as int),
        r.0 < 4,
{
    if pattern == 0 {
        (0, false)
    } else if pattern == 5 {
        (1, false)
    } else if pattern == 6 {
        (2, false)
    } else if pattern == 3 {
        (3, false)
    } else if pattern == 4 {
        (0, true)
    } else if pattern == 7 {
        (1, true)
    } else if pattern == 2 {
        (2, true)
    } else {
        (3, true)
    }
}

/// Splits a packed cell into its global tile id and its flag pattern.
pub fn split_cell(raw: u32) -> (r: (u32, u32))
    ensures
        r.0 == spec_gid(raw),
        r.1 == spec_pattern(raw),
        r.1 < 8,
        r.0 < GID_SPAN,
{
    let gid: u32 = raw & 0x1fff_ffff;
    let pattern: u32 = raw >> 29;
    assert(raw & 0x1fff_ffff == raw % 0x2000_0000) by (bit_vector);
    assert(raw >> 29 == raw / 0x2000_0000) by (bit_vector);
    (gid, pattern)
}

/// Whether an object's global tile id carries the mirror flag (its top bit).
pub fn object_flipped(gid: u32) -> (r: bool)
    ensures
        r == (gid >= 0x8000_0000),
{
    assert((gid >> 31 == 1) == (gid >= 0x8000_0000)) by (bit_vector);
    (gid >> 31) == 1
}

/// Two flag patterns that decode alike are the same pattern: the eight
/// patterns cover the four rotations and two mirror states exactly once.
pub proof fn lemma_decode_injective(a: int, b: int)
    requires
        0 <= a < 8,
        0 <= b < 8,
        spec_rotation(a) == spec_rotation(b),
        spec_flipped(a) == spec_flipped(b),
    ensures
        a == b,
{
}

/// Every rotation and mirror state is the decoding of some flag pattern.
pub proof fn lemma_decode_surjective(rotation: int, flipped: bool) -> (pattern: int)
    requires
        0 <= rotation < 4,
    ensures
        0 <= pattern < 8,
        spec_rotation(pattern) == rotation,
        spec_flipped(pattern) == flipped,
{
    if rotation == 0 {
        if flipped { 4 } else { 0 }
    } else if rotation == 1 {
        if flipped { 7 } else { 5 }
    } else if rotation == 2 {
        if flipped { 2 } else { 6 }
    } else {
        if flipped { 1 } else { 3 }
    }
}

/// The integer `v` brought into the range of `i64`.
pub open spec fn saturate(v: int) -> int {
    if v > i64::MAX as int {
        i64::MAX as int
    } else if v < i64::MIN as int {
        i64::MIN as int
    } else {
        v
    }
}

/// `a + b`, held at the bounds of `i64` where the sum leaves them.
pub fn add_saturating(a: i64, b: i64) -> (r: i64)
    ensures
        r == saturate(a + b),
{
    match a.checked_add(b) {
        Some(s) => s,
        None => if a > 0 { i64::MAX } else { i64::MIN },
    }
}

/// `-a`, held at `i64::MAX` for the one value whose negation leaves `i64`.
pub fn negate_saturating(a: i64) -> (r: i64)
    ensures
        r == saturate(-a),
{
    if a == i64::MIN {
        i64::MAX
    } else {
        -a
    }
}

/// A count of quarter turns brought into `0..4`.
pub open spec fn spec_normalize(turns: int) -> int {
    turns % 4
}

/// Brings any count of quarter turns, negative counts too, into `0..4`.
pub fn normalize_rotation(turns: i64) -> (r: usize)
    ensures
        r == spec_normalize(turns as int),
        r < 4,
{
    if turns >= 0 {
        (turns % 4) as usize
    } else {
        // -(turns + 1) is in 0..=i64::MAX, so nothing overflows.
        let back: i64 = (-(turns + 1)) % 4;
        (3 - back) as usize
    }
}

/// The number of quarter turns nearest to an angle given in sub-units of a
/// degree; an angle halfway between two quarter turns goes to the one
/// further from zero.
pub open spec fn spec_nearest_quarter(angle: int) -> int {
    if angle >= 0 {
        (angle + 45 * SUBUNITS) / (90 * SUBUNITS)
    } else {
        -((45 * SUBUNITS - angle) / (90 * SUBUNITS))
    }
}

/// The rotation in `0..4` of an object authored at an angle given in
/// sub-units of a degree.
pub fn rotation_from_angle(angle: i64) -> (r: usize)
    ensures
        r == spec_normalize(spec_nearest_quarter(angle as int)),
        r < 4,
{
    let wide: i128 = angle as i128;
    let half: i128 = 45 * SUBUNITS as i128;
    let quarter: i128 = 90 * SUBUNITS as i128;
    if wide >= 0 {
        normalize_rotation(((wide + half) / quarter) as i64)
    } else {
        normalize_rotation((-((half - wide) / quarter)) as i64)
    }
}

/// A step `(dx, dy)` asked for in an object's own frame, turned into the map's
/// frame for an object facing `rotation`.
pub open spec fn spec_rotate_delta(rotation: int, dx: int, dy: int) -> (int, int) {
    if rotation == 0 {
        (dx, dy)
    } else if rotation == 1 {
        (saturate(-dy), dx)
    } else if rotation == 2 {
        (saturate(-dx), saturate(-dy))
    } else {
        (dy, saturate(-dx))
    }
}

/// Turns a step given in an object's own frame into the map's frame.
pub fn rotate_delta(rotation: usize, dx: i64, dy: i64) -> (r: (i64, i64))
    ensures
        (r.0 as int, r.1 as int) == spec_rotate_delta(rotation as int, dx as int, dy as int),
{
    if rotation == 0 {
        (dx, dy)
    } else if rotation == 1 {
        (negate_saturating(dy), dx)
    } else if rotation == 2 {
        (negate_saturating(dx), negate_saturating(dy))
    } else {
        (dy, negate_saturating(dx))
    }
}

/// Turning a step by one rotation and then by another is turning it by their
/// sum, wherever no component is `i64::MIN`.
pub proof fn lemma_rotate_delta_composes(first: int, second: int, dx: int, dy: int)
    requires
        0 <= first < 4,
        0 <= second < 4,
        i64::MIN < dx <= i64::MAX,
        i64::MIN < dy <= i64::MAX,
    ensures
        ({
            let once = spec_rotate_delta(first, dx, dy);
            spec_rotate_delta(second, once.0, once.1)
        }) == spec_rotate_delta(spec_normalize(first + second), dx, dy),
{
}

/// Normalizing is the identity on `0..4` and ignores whole turns.
pub proof fn lemma_normalize_periodic(turns: int, whole: int)
    ensures
        0 <= spec_normalize(turns) < 4,
        spec_normalize(turns + 4 * whole) == spec_normalize(turns),
        0 <= turns < 4 ==> spec_normalize(turns) == turns,
{
    assert((turns + 4 * whole) % 4 == turns % 4) by (nonlinear_arith);
}

} // verus!
