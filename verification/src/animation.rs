//! Which frame of an animation is shown at a given time.
//!
//! Every frame of an animation is shown for as long as the first frame's
//! duration says; the durations of the later frames are not looked at.

use vstd::prelude::*;
use crate::tiles::{Tile, Tiles};

verus! {

/// How many whole frame durations of `duration` milliseconds have passed
/// after `elapsed` milliseconds, held at `usize::MAX`. A duration of zero
/// counts as passed without end once any time has passed.
pub open spec fn spec_frames_passed(elapsed: u64, duration: u32) -> int {
    if duration == 0 {
        if elapsed == 0 {
            0
        } else {
            usize::MAX as int
        }
    } else if elapsed as int / duration as int > usize::MAX {
        usize::MAX as int
    } else {
        elapsed as int / duration as int
    }
}

/// The place of the frame shown after `elapsed` milliseconds in an animation
/// of `count` frames whose first frame lasts `duration` milliseconds.
pub open spec fn spec_frame_index(elapsed: u64, duration: u32, count: int) -> int {
    spec_frames_passed(elapsed, duration) % count
}

/// The place of the frame shown after `elapsed` milliseconds in an animation
/// of `count` frames whose first frame lasts `duration` milliseconds.
pub fn frame_index(elapsed: u64, duration: u32, count: usize) -> (r: usize)
    requires
        count > 0,
    ensures
        r == spec_frame_index(elapsed, duration, count as int),
        r < count,
{
    let passed: usize = if duration == 0 {
        if elapsed == 0 {
            0
        } else {
            usize::MAX
        }
    } else {
        let whole: u64 = elapsed / duration as u64;
        if whole > usize::MAX as u64 {
            usize::MAX
        } else {
            whole as usize
        }
    };
    passed % count
}

/// The catalog index of the tile drawn for the tile at `index` after
/// `elapsed` milliseconds: the tile that the current frame of its animation
/// shows, and the tile itself where it has no animation.
pub open spec fn spec_shown(tiles: Seq<Tile>, index: int, elapsed: u64) -> int {
    let frames = tiles[index].animation@;
    if frames.len() == 0 {
        index
    } else {
        frames[spec_frame_index(elapsed, frames[0].duration, frames.len() as int)].tile as int
    }
}

impl Tiles {
    /// The catalog index of the tile drawn for the tile at `index` after
    /// `elapsed` milliseconds; `None` where the catalog has no tile at
    /// `index`.
    pub fn shown(&self, index: usize, elapsed: u64) -> (r: Option<usize>)
        requires
            self.wf(),
        ensures
            r is Some <==> index < self.tiles().len(),
            r matches Some(tile) ==> tile == spec_shown(self.tiles(), index as int, elapsed) && tile
                < self.tiles().len(),
    {
        match self.get(index) {
            Some(tile) => {
                if tile.animation.len() == 0 {
                    Some(index)
                } else {
                    let frame = frame_index(elapsed, tile.animation[0].duration, tile.animation.len());
                    Some(tile.animation[frame].tile)
                }
            },
            None => None,
        }
    }
}

/// The frames of an animation are shown in turn and come round again: after
/// one more first-frame duration the next frame is shown, and the first
/// after the last.
pub proof fn lemma_frames_cycle(elapsed: u64, duration: u32, count: int)
    requires
        count > 0,
        duration > 0,
        elapsed + duration <= u64::MAX,
        (elapsed + duration) / (duration as int) <= usize::MAX,
    ensures
        0 <= spec_frame_index(elapsed, duration, count) < count,
        spec_frame_index((elapsed + duration) as u64, duration, count) == (spec_frame_index(
            elapsed,
            duration,
            count,
        ) + 1) % count,
{
    let d = duration as int;
    let e = elapsed as int;
    assert((e + d) / d == e / d + 1) by {
        vstd::arithmetic::div_mod::lemma_div_plus_one(e, d);
    }
    assert(e / d >= 0) by (nonlinear_arith)
        requires
            e >= 0,
            d > 0,
    ;
    vstd::arithmetic::div_mod::lemma_add_mod_noop(e / d, 1, count);
    vstd::arithmetic::div_mod::lemma_mod_twice(e / d, count);
    if count == 1 {
    } else {
        vstd::arithmetic::div_mod::lemma_small_mod(1, count as nat);
    }
    assert(1int % 1 == 0);
}

} // verus!
