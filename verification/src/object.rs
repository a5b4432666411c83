//! Scripted objects: position, pending movement, facing, and the values a
//! script sees of them.
//!
//! Positions and steps are counted in sub-units, [`SUBUNITS`] of which make
//! one world unit, so that a script can move an object by a small part of a
//! unit. A script sees an object's position turned into the object's own
//! facing frame, against a reference frame of [`FRAME_SPAN`] world units.

use vstd::prelude::*;
use crate::text::same_text;
use crate::orientation::{
    add_saturating, negate_saturating, normalize_rotation, rotate_delta, saturate,
    spec_normalize, spec_rotate_delta,
};

verus! {

/// The number of sub-units in one world unit.
pub const SUBUNITS: i64 = 65536;

/// The span, in world units, of the reference frame that the script-visible
/// position of a turned object is mirrored against.
pub const FRAME_SPAN: i64 = 2048;

/// The span of the reference frame in sub-units.
pub open spec fn spec_span() -> int {
    FRAME_SPAN * SUBUNITS
}

/// The whole world units in `fine` sub-units, rounded toward zero.
pub open spec fn spec_whole_units(fine: int) -> int {
    if fine >= 0 {
        fine / (SUBUNITS as int)
    } else {
        -((-fine) / (SUBUNITS as int))
    }
}

/// The whole world units in `fine` sub-units, rounded toward zero.
pub fn whole_units(fine: i64) -> (r: i64)
    ensures
        r == spec_whole_units(fine as int),
{
    if fine >= 0 {
        fine / SUBUNITS
    } else if fine == i64::MIN {
        -(i64::MAX / SUBUNITS) - 1
    } else {
        -((-fine) / SUBUNITS)
    }
}

/// A dynamic entity of the map.
#[derive(Clone, Copy, Debug, PartialEq, Eq, Structural)]
pub struct Object {
    /// The top-left corner, in sub-units.
    pub x: i64,
    pub y: i64,
    /// Horizontal step to attempt in the next movement resolution, in
    /// sub-units.
    pub move_x: i64,
    /// Vertical step to attempt in the next movement resolution, in
    /// sub-units.
    pub move_y: i64,
    /// The size of the object's box, in world units.
    pub width: u32,
    pub height: u32,
    pub rotation: usize,
    pub flipped: bool,
}

/// A value that a script reads from one of an object's built-in fields.
#[derive(Clone, Copy, Debug, PartialEq, Eq, Structural)]
pub enum FieldValue {
    /// A length or a coordinate, in sub-units.
    Number(i64),
    Integer(i64),
    Boolean(bool),
}

impl Object {
    /// The horizontal position that a script sees.
    pub open spec fn spec_script_x(self) -> int {
        if self.rotation == 0 {
            self.x as int
        } else if self.rotation == 1 {
            self.y as int
        } else if self.rotation == 2 {
            saturate(spec_span() - self.x)
        } else {
            saturate(spec_span() - self.y)
        }
    }

    /// The vertical position that a script sees: for an object that is not
    /// turned, that of its top-left corner.
    pub open spec fn spec_script_y(self) -> int {
        if self.rotation == 0 {
            self.y as int
        } else if self.rotation == 1 {
            saturate(spec_span() - self.x)
        } else if self.rotation == 2 {
            saturate(spec_span() - self.y)
        } else {
            saturate(self.x + self.height * SUBUNITS)
        }
    }

    /// The object after a script asked for the step `(dx, dy)` in the
    /// object's own frame: the step, turned into the map's frame, is added to
    /// what was pending, and nothing else changes.
    pub open spec fn spec_moved(self, dx: i64, dy: i64) -> Object {
        let step = spec_rotate_delta(self.rotation as int, dx as int, dy as int);
        Object {
            move_x: saturate(self.move_x + step.0) as i64,
            move_y: saturate(self.move_y + step.1) as i64,
            ..self
        }
    }

    /// The built-in field that a script reads under `name`, if it names one.
    pub open spec fn spec_get(self, name: Seq<char>) -> Option<FieldValue> {
        if name == "x"@ {
            Some(FieldValue::Number(self.spec_script_x() as i64))
        } else if name == "y"@ {
            Some(FieldValue::Number(self.spec_script_y() as i64))
        } else if name == "width"@ {
            Some(FieldValue::Number((self.width * SUBUNITS) as i64))
        } else if name == "height"@ {
            Some(FieldValue::Number((self.height * SUBUNITS) as i64))
        } else if name == "rotation"@ {
            Some(FieldValue::Integer(self.rotation as i64))
        } else if name == "flipped"@ {
            Some(FieldValue::Boolean(self.flipped))
        } else {
            None
        }
    }

    /// An object at rest at `(x, y)` with the given box and facing.
    pub fn new(width: u32, height: u32, x: i64, y: i64, rotation: usize, flipped: bool) -> (r:
        Object)
        ensures
            r == (Object { x, y, move_x: 0, move_y: 0, width, height, rotation, flipped }),
    {
        Object { x, y, move_x: 0, move_y: 0, width, height, rotation, flipped }
    }

    /// Adds the step `(dx, dy)`, given in the object's own frame, to the
    /// pending movement.
    pub fn move_by(&mut self, dx: i64, dy: i64)
        ensures
            *final(self) == old(self).spec_moved(dx, dy),
    {
        let step = rotate_delta(self.rotation, dx, dy);
        self.move_x = add_saturating(self.move_x, step.0);
        self.move_y = add_saturating(self.move_y, step.1);
    }

    /// Faces the object `turns` quarter turns from the map's frame.
    pub fn rotate(&mut self, turns: i64)
        ensures
            *final(self) == (Object { rotation: spec_normalize(turns as int) as usize, ..*old(self) }),
            final(self).rotation < 4,
    {
        self.rotation = normalize_rotation(turns);
    }

    /// Sets the mirror flag.
    pub fn flip(&mut self, flipped: bool)
        ensures
            *final(self) == (Object { flipped, ..*old(self) }),
    {
        self.flipped = flipped;
    }

    /// The horizontal position that a script sees.
    pub fn script_x(&self) -> (r: i64)
        ensures
            r == self.spec_script_x(),
    {
        let span: i64 = FRAME_SPAN * SUBUNITS;
        if self.rotation == 0 {
            self.x
        } else if self.rotation == 1 {
            self.y
        } else if self.rotation == 2 {
            add_saturating(span, negate_saturating(self.x))
        } else {
            add_saturating(span, negate_saturating(self.y))
        }
    }

    /// The vertical position that a script sees.
    pub fn script_y(&self) -> (r: i64)
        ensures
            r == self.spec_script_y(),
    {
        let span: i64 = FRAME_SPAN * SUBUNITS;
        if self.rotation == 0 {
            self.y
        } else if self.rotation == 1 {
            add_saturating(span, negate_saturating(self.x))
        } else if self.rotation == 2 {
            add_saturating(span, negate_saturating(self.y))
        } else {
            add_saturating(self.x, self.height as i64 * SUBUNITS)
        }
    }

    /// The built-in field that a script reads under `name`; `None` where the
    /// name is none of the built-in fields, so that it names a custom field.
    pub fn get(&self, name: &str) -> (r: Option<FieldValue>)
        ensures
            r == self.spec_get(name@),
    {
        if same_text(name, "x") {
            Some(FieldValue::Number(self.script_x()))
        } else if same_text(name, "y") {
            Some(FieldValue::Number(self.script_y()))
        } else if same_text(name, "width") {
            Some(FieldValue::Number(self.width as i64 * SUBUNITS))
        } else if same_text(name, "height") {
            Some(FieldValue::Number(self.height as i64 * SUBUNITS))
        } else if same_text(name, "rotation") {
            Some(FieldValue::Integer(#[verifier::truncate] (self.rotation as i64)))
        } else if same_text(name, "flipped") {
            Some(FieldValue::Boolean(self.flipped))
        } else {
            None
        }
    }

    /// Whether a movement is pending.
    pub fn has_pending_move(&self) -> (r: bool)
        ensures
            r == (self.move_x != 0 || self.move_y != 0),
    {
        self.move_x != 0 || self.move_y != 0
    }

    /// The position that the pending movement aims at.
    pub fn candidate_position(&self) -> (r: (i64, i64))
        ensures
            r.0 == saturate(self.x + self.move_x),
            r.1 == saturate(self.y + self.move_y),
    {
        (add_saturating(self.x, self.move_x), add_saturating(self.y, self.move_y))
    }
}

/// A step that a script asks for is turned by the object's rotation and
/// added to what was pending, wherever the sums stay within `i64`: the step
/// `(dx, dy)` becomes `(dx, dy)`, `(-dy, dx)`, `(-dx, -dy)` or `(dy, -dx)` for
/// the rotations 0 to 3, which keeps its length, and no other field of the
/// object changes.
pub proof fn lemma_move_accumulates(object: Object, dx: i64, dy: i64)
    requires
        object.rotation < 4,
        i64::MIN < dx,
        i64::MIN < dy,
        i64::MIN <= object.move_x + spec_rotate_delta(object.rotation as int, dx as int, dy as int).0 <= i64::MAX,
        i64::MIN <= object.move_y + spec_rotate_delta(object.rotation as int, dx as int, dy as int).1 <= i64::MAX,
    ensures
        ({
            let step = spec_rotate_delta(object.rotation as int, dx as int, dy as int);
            &&& step == (if object.rotation == 0 {
                (dx as int, dy as int)
            } else if object.rotation == 1 {
                (-dy, dx as int)
            } else if object.rotation == 2 {
                (-dx, -dy)
            } else {
                (dy as int, -dx)
            })
            &&& step.0 * step.0 + step.1 * step.1 == dx * dx + dy * dy
            &&& object.spec_moved(dx, dy).move_x == object.move_x + step.0
            &&& object.spec_moved(dx, dy).move_y == object.move_y + step.1
            &&& object.spec_moved(dx, dy) == (Object {
                move_x: object.spec_moved(dx, dy).move_x,
                move_y: object.spec_moved(dx, dy).move_y,
                ..object
            })
        }),
{
    let step = spec_rotate_delta(object.rotation as int, dx as int, dy as int);
    assert(step.0 * step.0 + step.1 * step.1 == dx * dx + dy * dy) by (nonlinear_arith)
        requires
            (step.0 == dx && step.1 == dy) || (step.0 == -dy && step.1 == dx) || (step.0 == -dx && step.1
                == -dy) || (step.0 == dy && step.1 == -dx),
    ;
}

} // verus!
