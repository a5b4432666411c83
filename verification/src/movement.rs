//! Movement resolution: a pending step is shortened to the earliest time of
//! impact among the contacts that the step begins.
//!
//! A time of impact is a fraction of the full step. The step is applied once,
//! along its own direction; it is never split by axis. The part of a step
//! that is applied is rounded to the nearest sub-unit.

use vstd::prelude::*;
use crate::arith::lemma_product_fits;
use crate::object::Object;
use crate::orientation::{add_saturating, saturate};

verus! {

/// A notification of the collision world about two of its shapes.
#[derive(Clone, Copy, Debug, PartialEq, Eq, Structural)]
pub enum ContactEvent {
    /// The two shapes began to touch in this step.
    Started(usize, usize),
    /// The two shapes ceased to touch in this step.
    Stopped(usize, usize),
}

/// The shape that began to touch the shape `handle`, if `event` says that one did.
pub open spec fn spec_contact_partner(event: ContactEvent, handle: usize) -> Option<usize> {
    match event {
        ContactEvent::Started(a, b) => if a == handle {
            Some(b)
        } else if b == handle {
            Some(a)
        } else {
            None
        },
        ContactEvent::Stopped(_, _) => None,
    }
}

/// The shape that began to touch the shape `handle`, if `event` says that one did.
pub fn contact_partner(event: &ContactEvent, handle: usize) -> (r: Option<usize>)
    ensures
        r == spec_contact_partner(*event, handle),
{
    match event {
        ContactEvent::Started(a, b) => {
            if *a == handle {
                Some(*b)
            } else if *b == handle {
                Some(*a)
            } else {
                None
            }
        },
        ContactEvent::Stopped(_, _) => None,
    }
}

/// A non-negative fraction `num / den` of a step.
#[derive(Clone, Copy, Debug)]
pub struct Fraction {
    num: u32,
    den: u32,
}

impl Fraction {
    /// Every fraction has a positive denominator.
    #[verifier::type_invariant]
    pub open spec fn valid(self) -> bool {
        self.spec_den() > 0
    }

    /// The numerator.
    pub closed spec fn spec_num(self) -> int {
        self.num as int
    }

    /// The denominator, which is positive.
    pub closed spec fn spec_den(self) -> int {
        self.den as int
    }

    /// Whether `self` is a smaller part of the step than `other`.
    pub open spec fn spec_lt(self, other: Fraction) -> bool {
        self.spec_num() * other.spec_den() < other.spec_num() * self.spec_den()
    }

    /// Whether `self` is no larger a part of the step than `other`.
    pub open spec fn spec_le(self, other: Fraction) -> bool {
        self.spec_num() * other.spec_den() <= other.spec_num() * self.spec_den()
    }

    /// Whether `self` is the whole step.
    pub open spec fn spec_is_whole(self) -> bool {
        self.spec_num() == self.spec_den()
    }

    /// The whole step, `1 / 1`.
    pub closed spec fn spec_whole() -> Fraction {
        Fraction { num: 1, den: 1 }
    }

    /// The fraction `num / den`; `None` where `den` is zero.
    pub fn new(num: u32, den: u32) -> (r: Option<Fraction>)
        ensures
            den == 0 <==> r is None,
            r matches Some(f) ==> f.spec_num() == num && f.spec_den() == den,
    {
        if den == 0 {
            None
        } else {
            Some(Fraction { num, den })
        }
    }

    /// The whole step, `1 / 1`.
    pub fn whole() -> (r: Fraction)
        ensures
            r == Fraction::spec_whole(),
            r.spec_num() == 1,
            r.spec_den() == 1,
    {
        Fraction { num: 1, den: 1 }
    }

    /// The numerator.
    pub fn num(&self) -> (r: u32)
        ensures
            r == self.spec_num(),
    {
        self.num
    }

    /// The denominator.
    pub fn den(&self) -> (r: u32)
        ensures
            r == self.spec_den(),
            r > 0,
    {
        proof {
            use_type_invariant(self);
        }
        self.den
    }

    /// Whether `self` is a smaller part of the step than `other`.
    pub fn less_than(&self, other: &Fraction) -> (r: bool)
        ensures
            r == self.spec_lt(*other),
    {
        proof {
            lemma_product_fits(self.num as int, other.den as int);
            lemma_product_fits(other.num as int, self.den as int);
        }
        let left: u64 = self.num as u64 * other.den as u64;
        let right: u64 = other.num as u64 * self.den as u64;
        left < right
    }
}

/// The whole step is one over one, and it is a valid fraction.
pub proof fn lemma_whole_is_one()
    ensures
        Fraction::spec_whole().spec_num() == 1,
        Fraction::spec_whole().spec_den() == 1,
        Fraction::spec_whole().valid(),
        Fraction::spec_whole().spec_is_whole(),
{
}

/// The numerator and the denominator of a fraction are 32-bit numbers, so
/// that neither is negative.
pub proof fn lemma_fraction_bounds(time: Fraction)
    ensures
        0 <= time.spec_num() <= u32::MAX,
        0 <= time.spec_den() <= u32::MAX,
{
}

/// The part `num / den` of the step `delta`, rounded to the nearest whole
/// number, and away from zero where it lies halfway between two.
pub open spec fn spec_scale(delta: int, num: int, den: int) -> int {
    if delta >= 0 {
        (2 * delta * num + den) / (2 * den)
    } else {
        -((2 * (-delta) * num + den) / (2 * den))
    }
}

/// The part `time` of the step `delta`, rounded to the nearest whole number
/// and held at the bounds of `i64`.
pub fn scale(delta: i64, time: Fraction) -> (r: i64)
    ensures
        r == saturate(spec_scale(delta as int, time.spec_num(), time.spec_den())),
{
    proof {
        use_type_invariant(time);
    }
    let size: u128 = if delta >= 0 {
        delta as u128
    } else {
        (-(delta + 1)) as u128 + 1
    };
    let num: u128 = time.num as u128;
    let den: u128 = time.den as u128;
    assert(2 * size * num <= 2 * 0x8000_0000_0000_0000 * 0xffff_ffff) by (nonlinear_arith)
        requires
            size <= 0x8000_0000_0000_0000,
            num <= 0xffff_ffff,
    ;
    let part: u128 = (2 * size * num + den) / (2 * den);
    if delta >= 0 {
        if part > 0x7fff_ffff_ffff_ffff {
            i64::MAX
        } else {
            part as i64
        }
    } else {
        if part >= 0x8000_0000_0000_0000 {
            i64::MIN
        } else {
            -(part as i64)
        }
    }
}

/// The earliest of the times of impact in `impacts`, and `start` where none is
/// earlier. Of two equal times the one that comes first is kept.
pub open spec fn spec_earliest(impacts: Seq<Option<Fraction>>, start: Fraction) -> Fraction
    decreases impacts.len(),
{
    if impacts.len() == 0 {
        start
    } else {
        let before = spec_earliest(impacts.drop_last(), start);
        match impacts.last() {
            Some(time) => if time.spec_lt(before) {
                time
            } else {
                before
            },
            None => before,
        }
    }
}

/// Whether every time of impact in `impacts` has a positive denominator.
pub open spec fn all_valid(impacts: Seq<Option<Fraction>>) -> bool {
    forall|i: int| 0 <= i < impacts.len() ==> (#[trigger] impacts[i] matches Some(time) ==> time.valid())
}

proof fn lemma_le_transitive(a: Fraction, b: Fraction, c: Fraction)
    requires
        a.valid(),
        b.valid(),
        c.valid(),
        a.spec_le(b),
        b.spec_le(c),
    ensures
        a.spec_le(c),
{
    let (an, ad) = (a.spec_num(), a.spec_den());
    let (bn, bd) = (b.spec_num(), b.spec_den());
    let (cn, cd) = (c.spec_num(), c.spec_den());
    assert(an * cd <= cn * ad) by (nonlinear_arith)
        requires
            an * bd <= bn * ad,
            bn * cd <= cn * bd,
            ad > 0,
            bd > 0,
            cd > 0,
            an >= 0,
            bn >= 0,
            cn >= 0,
    {
        assert(an * bd * cd <= bn * ad * cd);
        assert(bn * cd * ad <= cn * bd * ad);
        assert(bn * ad * cd == bn * cd * ad);
        assert(an * cd * bd <= cn * ad * bd);
    }
}

/// The earliest time of impact is `start` or one of the times given, and it
/// is no later than `start` or than any of them.
pub proof fn lemma_earliest_is_least(impacts: Seq<Option<Fraction>>, start: Fraction)
    requires
        start.valid(),
        all_valid(impacts),
    ensures
        spec_earliest(impacts, start).valid(),
        spec_earliest(impacts, start).spec_le(start),
        forall|i: int|
            0 <= i < impacts.len() ==> (#[trigger] impacts[i] matches Some(time) ==> spec_earliest(
                impacts,
                start,
            ).spec_le(time)),
        spec_earliest(impacts, start) == start || exists|i: int|
            0 <= i < impacts.len() && #[trigger] impacts[i] == Some(spec_earliest(impacts, start)),
    decreases impacts.len(),
{
    if impacts.len() > 0 {
        let rest = impacts.drop_last();
        let before = spec_earliest(rest, start);
        let best = spec_earliest(impacts, start);
        assert forall|i: int| 0 <= i < rest.len() implies (#[trigger] rest[i] matches Some(time)
            ==> time.valid()) by {
            assert(rest[i] == impacts[i]);
        }
        lemma_earliest_is_least(rest, start);
        assert(best.spec_le(before));
        assert(best.valid());
        lemma_le_transitive(best, before, start);
        assert forall|i: int| 0 <= i < impacts.len() implies (#[trigger] impacts[i] matches Some(
            time,
        ) ==> best.spec_le(time)) by {
            if i < rest.len() {
                assert(rest[i] == impacts[i]);
                if let Some(time) = impacts[i] {
                    lemma_le_transitive(best, before, time);
                }
            }
        }
        if best != start {
            if best == before {
                let i = choose|i: int| 0 <= i < rest.len() && #[trigger] rest[i] == Some(before);
                assert(impacts[i] == rest[i]);
            } else {
                assert(impacts[impacts.len() - 1] == Some(best));
            }
        }
    }
}

/// The earliest time of impact among `impacts`, and the whole step where none
/// is earlier.
pub fn earliest_impact(impacts: &Vec<Option<Fraction>>) -> (r: Fraction)
    ensures
        r == spec_earliest(impacts@, Fraction::spec_whole()),
        r.spec_num() <= r.spec_den(),
        forall|i: int|
            0 <= i < impacts.len() ==> (#[trigger] impacts[i] matches Some(time) ==> r.spec_le(time)),
        r == Fraction::spec_whole() || exists|i: int|
            0 <= i < impacts.len() && #[trigger] impacts[i] == Some(r),
{
    let mut best = Fraction::whole();
    let mut i: usize = 0;
    while i < impacts.len()
        invariant
            i <= impacts.len(),
            best == spec_earliest(impacts@.take(i as int), Fraction::spec_whole()),
            forall|j: int| 0 <= j < i ==> (#[trigger] impacts[j] matches Some(time) ==> time.valid()),
        decreases impacts.len() - i,
    {
        let current = impacts[i];
        proof {
            assert(impacts@.take(i + 1).drop_last() =~= impacts@.take(i as int));
            assert(impacts@.take(i + 1).last() == current);
        }
        if let Some(time) = current {
            proof {
                use_type_invariant(&time);
            }
            if time.less_than(&best) {
                best = time;
            }
        }
        i = i + 1;
    }
    proof {
        assert(impacts@.take(i as int) =~= impacts@);
        assert(Fraction::spec_whole().valid());
        lemma_earliest_is_least(impacts@, Fraction::spec_whole());
    }
    best
}

impl Object {
    /// The object after the part `time` of its pending step: moved along the
    /// step, with nothing pending.
    pub open spec fn spec_resolved(self, time: Fraction) -> Object {
        Object {
            x: saturate(
                self.x + saturate(spec_scale(self.move_x as int, time.spec_num(), time.spec_den())),
            ) as i64,
            y: saturate(
                self.y + saturate(spec_scale(self.move_y as int, time.spec_num(), time.spec_den())),
            ) as i64,
            move_x: 0,
            move_y: 0,
            ..self
        }
    }

    /// The object after one movement resolution in which the sweep of its
    /// pending step met the times of impact `impacts`.
    pub open spec fn spec_advanced(self, impacts: Seq<Option<Fraction>>) -> Object {
        if self.move_x != 0 || self.move_y != 0 {
            self.spec_resolved(spec_earliest(impacts, Fraction::spec_whole()))
        } else {
            self
        }
    }

    /// Applies the part `time` of the pending step and clears it.
    pub fn resolve(&mut self, time: Fraction)
        ensures
            *final(self) == old(self).spec_resolved(time),
    {
        self.x = add_saturating(self.x, scale(self.move_x, time));
        self.y = add_saturating(self.y, scale(self.move_y, time));
        self.move_x = 0;
        self.move_y = 0;
    }

    /// One movement resolution: where a step is pending, applies it up to the
    /// earliest of `impacts`, the times of impact that the sweep of the full
    /// step found for the contacts it began (`None` for a contact that the
    /// sweep does not reach).
    pub fn advance(&mut self, impacts: &Vec<Option<Fraction>>)
        ensures
            *final(self) == old(self).spec_advanced(impacts@),
    {
        if self.has_pending_move() {
            let time = earliest_impact(impacts);
            self.resolve(time);
        }
    }
}

/// The rounded quotient `q` of `size * num` by `den` lies within half of the
/// true quotient.
proof fn lemma_rounded(size: int, num: int, den: int) -> (q: int)
    requires
        size >= 0,
        num >= 0,
        den > 0,
    ensures
        q == (2 * size * num + den) / (2 * den),
        q >= 0,
        2 * (q * den) <= 2 * (size * num) + den < 2 * (q * den) + 2 * den,
{
    let x = 2 * size * num + den;
    let d = 2 * den;
    let q = x / d;
    assert(size * num >= 0) by (nonlinear_arith)
        requires
            size >= 0,
            num >= 0,
    ;
    assert(2 * size * num == 2 * (size * num)) by (nonlinear_arith);
    vstd::arithmetic::div_mod::lemma_fundamental_div_mod(x, d);
    vstd::arithmetic::div_mod::lemma_mod_bound(x, d);
    assert(d * q == 2 * (q * den)) by (nonlinear_arith)
        requires
            d == 2 * den,
    ;
    assert(q >= 0) by (nonlinear_arith)
        requires
            2 * (q * den) + 2 * den > 0,
            den > 0,
    ;
    q
}

/// The whole of a step is the step, and none of it is nothing.
pub proof fn lemma_scale_ends(delta: int, den: int)
    requires
        den > 0,
    ensures
        spec_scale(delta, den, den) == delta,
        spec_scale(delta, 0, den) == 0,
{
    let size = if delta >= 0 {
        delta
    } else {
        -delta
    };
    let all = lemma_rounded(size, den, den);
    assert(all == size) by (nonlinear_arith)
        requires
            2 * (all * den) <= 2 * (size * den) + den < 2 * (all * den) + 2 * den,
            den > 0,
    ;
    let none = lemma_rounded(size, 0, den);
    assert(size * 0 == 0);
    assert(none == 0) by (nonlinear_arith)
        requires
            2 * (none * den) <= den,
            none >= 0,
            den > 0,
    ;
}

/// A part of a step that is no more than the whole points the way the step
/// does and is no longer than it.
pub proof fn lemma_scale_within_step(delta: int, num: int, den: int)
    requires
        0 <= num <= den,
        den > 0,
    ensures
        delta >= 0 ==> 0 <= spec_scale(delta, num, den) <= delta,
        delta <= 0 ==> delta <= spec_scale(delta, num, den) <= 0,
{
    let size = if delta >= 0 {
        delta
    } else {
        -delta
    };
    let q = lemma_rounded(size, num, den);
    assert(q <= size) by (nonlinear_arith)
        requires
            2 * (q * den) <= 2 * (size * num) + den,
            0 <= num <= den,
            den > 0,
            size >= 0,
    {
        assert(size * num <= size * den);
    }
}

/// The part of a step that is applied is the nearest whole number to the
/// true product of the step and the time: it differs from it by no more than
/// half a sub-unit.
pub proof fn lemma_scale_is_nearest(delta: int, num: int, den: int)
    requires
        num >= 0,
        den > 0,
    ensures
        -den <= 2 * (spec_scale(delta, num, den) * den - delta * num) <= den,
{
    let size = if delta >= 0 {
        delta
    } else {
        -delta
    };
    let q = lemma_rounded(size, num, den);
    let r = spec_scale(delta, num, den);
    assert(r * den - delta * num == if delta >= 0 {
        q * den - size * num
    } else {
        -(q * den - size * num)
    }) by (nonlinear_arith)
        requires
            r == (if delta >= 0 {
                q
            } else {
                -q
            }),
            size == (if delta >= 0 {
                delta
            } else {
                -delta
            }),
    ;
}

/// Wherever the true product of the step and the time is whole, it is the
/// part of the step that is applied.
pub proof fn lemma_scale_exact(delta: int, num: int, den: int, whole: int)
    requires
        num >= 0,
        den > 0,
        delta * num == whole * den,
    ensures
        spec_scale(delta, num, den) == whole,
{
    lemma_scale_is_nearest(delta, num, den);
    let r = spec_scale(delta, num, den);
    assert(r == whole) by (nonlinear_arith)
        requires
            delta * num == whole * den,
            -den <= 2 * (r * den - delta * num) <= den,
            den > 0,
    ;
}

/// An object whose step begins no contact, or only contacts that its sweep
/// does not reach, ends the resolution at the position the step aimed at,
/// with nothing pending.
pub proof fn lemma_unobstructed_step(object: Object, impacts: Seq<Option<Fraction>>)
    requires
        forall|i: int| 0 <= i < impacts.len() ==> impacts[i] is None,
    ensures
        spec_earliest(impacts, Fraction::spec_whole()) == Fraction::spec_whole(),
        object.spec_advanced(impacts).x == saturate(object.x + object.move_x),
        object.spec_advanced(impacts).y == saturate(object.y + object.move_y),
        object.spec_advanced(impacts).move_x == 0,
        object.spec_advanced(impacts).move_y == 0,
    decreases impacts.len(),
{
    if impacts.len() > 0 {
        assert(impacts.last() is None);
        lemma_unobstructed_step(object, impacts.drop_last());
    }
    lemma_scale_ends(object.move_x as int, 1);
    lemma_scale_ends(object.move_y as int, 1);
}

/// A resolution never carries an object past the position its step aimed at,
/// nor back behind the position it started from.
pub proof fn lemma_advance_stays_on_step(object: Object, impacts: Seq<Option<Fraction>>)
    requires
        all_valid(impacts),
    ensures
        object.move_x >= 0 ==> object.x <= object.spec_advanced(impacts).x <= saturate(
            object.x + object.move_x,
        ),
        object.move_x <= 0 ==> saturate(object.x + object.move_x) <= object.spec_advanced(
            impacts,
        ).x <= object.x,
        object.move_y >= 0 ==> object.y <= object.spec_advanced(impacts).y <= saturate(
            object.y + object.move_y,
        ),
        object.move_y <= 0 ==> saturate(object.y + object.move_y) <= object.spec_advanced(
            impacts,
        ).y <= object.y,
{
    let time = spec_earliest(impacts, Fraction::spec_whole());
    lemma_earliest_is_least(impacts, Fraction::spec_whole());
    lemma_scale_within_step(object.move_x as int, time.spec_num(), time.spec_den());
    lemma_scale_within_step(object.move_y as int, time.spec_num(), time.spec_den());
}

/// One movement resolution, in full. The time used is the least of the
/// times of impact and the whole step, so it lies between nothing and the
/// whole. An object with a pending step moves by that one time's part of the
/// step on both axes, to the nearest sub-unit, and has nothing pending
/// afterwards; an object with nothing pending stays as it is. Its box, its
/// facing and its mirror flag are never touched.
pub proof fn lemma_resolution(object: Object, impacts: Seq<Option<Fraction>>)
    requires
        all_valid(impacts),
    ensures
        ({
            let time = spec_earliest(impacts, Fraction::spec_whole());
            let after = object.spec_advanced(impacts);
            let part_x = spec_scale(object.move_x as int, time.spec_num(), time.spec_den());
            let part_y = spec_scale(object.move_y as int, time.spec_num(), time.spec_den());
            &&& time.valid()
            &&& 0 <= time.spec_num() <= time.spec_den()
            &&& forall|i: int|
                0 <= i < impacts.len() ==> (#[trigger] impacts[i] matches Some(other) ==> time.spec_le(other))
            &&& (time == Fraction::spec_whole() || exists|i: int|
                0 <= i < impacts.len() && #[trigger] impacts[i] == Some(time))
            &&& object.move_x == 0 && object.move_y == 0 ==> after == object
            &&& object.move_x != 0 || object.move_y != 0 ==> {
                &&& after.x == saturate(object.x + part_x)
                &&& after.y == saturate(object.y + part_y)
                &&& -time.spec_den() <= 2 * (part_x * time.spec_den() - object.move_x * time.spec_num())
                    <= time.spec_den()
                &&& -time.spec_den() <= 2 * (part_y * time.spec_den() - object.move_y * time.spec_num())
                    <= time.spec_den()
            }
            &&& after.move_x == 0 && after.move_y == 0
            &&& after.width == object.width && after.height == object.height
            &&& after.rotation == object.rotation && after.flipped == object.flipped
        }),
{
    let time = spec_earliest(impacts, Fraction::spec_whole());
    lemma_earliest_is_least(impacts, Fraction::spec_whole());
    lemma_scale_within_step(object.move_x as int, time.spec_num(), time.spec_den());
    lemma_scale_within_step(object.move_y as int, time.spec_num(), time.spec_den());
    lemma_scale_is_nearest(object.move_x as int, time.spec_num(), time.spec_den());
    lemma_scale_is_nearest(object.move_y as int, time.spec_num(), time.spec_den());
}

/// An object whose sweep is in contact from the start does not move at all:
/// where one of the times of impact is nothing, the resolution leaves the
/// object where it stands, with nothing pending. So an object that stands at
/// a wall and steps into it stays on its side of the wall.
pub proof fn lemma_blocked_step(object: Object, impacts: Seq<Option<Fraction>>, at: int)
    requires
        all_valid(impacts),
        0 <= at < impacts.len(),
        impacts[at] is Some,
        impacts[at]->0.spec_num() == 0,
    ensures
        object.spec_advanced(impacts).x == object.x,
        object.spec_advanced(impacts).y == object.y,
        object.spec_advanced(impacts).move_x == 0,
        object.spec_advanced(impacts).move_y == 0,
{
    let time = spec_earliest(impacts, Fraction::spec_whole());
    let zero = impacts[at]->0;
    lemma_earliest_is_least(impacts, Fraction::spec_whole());
    assert(time.spec_le(zero));
    assert(time.spec_num() == 0) by (nonlinear_arith)
        requires
            time.spec_num() * zero.spec_den() <= zero.spec_num() * time.spec_den(),
            zero.spec_num() == 0,
            zero.spec_den() > 0,
            time.spec_num() >= 0,
    ;
    lemma_scale_ends(object.move_x as int, time.spec_den());
    lemma_scale_ends(object.move_y as int, time.spec_den());
}

} // verus!
