//! The order in which an object's scripts are run.
//!
//! The script engine is outside this library. What is fixed here is what it
//! is asked to do for one object, and in which order.

use vstd::prelude::*;

verus! {

/// One thing to ask of the script engine.
#[derive(Clone, Copy, Debug, PartialEq, Eq, Structural)]
pub enum ScriptStep {
    /// Publish the object under the global name `object`.
    Publish,
    /// Call the compiled tile script with the given handle, with no
    /// arguments.
    RunTile(usize),
    /// Call the global function `init`, with no arguments.
    CallInit,
    /// Call the global function `update`, with no arguments.
    CallUpdate,
    /// Read the object back from the global name `object`.
    ReadBack,
}

/// What is asked of the script engine when an object on a tile with the
/// script `script` is made: nothing for a tile without a script, and else
/// the tile script and then the global `init`, between publishing the object
/// and reading it back.
pub open spec fn spec_init_steps(script: Option<usize>) -> Seq<ScriptStep> {
    match script {
        Some(handle) => seq![
            ScriptStep::Publish,
            ScriptStep::RunTile(handle),
            ScriptStep::CallInit,
            ScriptStep::ReadBack,
        ],
        None => Seq::empty(),
    }
}

/// What is asked of the script engine in each frame for an object on a tile
/// with the script `script`: the object is published in any case; for a tile
/// with a script, the tile script and then the global `update` follow,
/// whether or not that tile's script is the one that defines `update`, and
/// the object is read back.
pub open spec fn spec_update_steps(script: Option<usize>) -> Seq<ScriptStep> {
    match script {
        Some(handle) => seq![
            ScriptStep::Publish,
            ScriptStep::RunTile(handle),
            ScriptStep::CallUpdate,
            ScriptStep::ReadBack,
        ],
        None => seq![ScriptStep::Publish],
    }
}

/// What is asked of the script engine when an object is made.
pub fn init_steps(script: Option<usize>) -> (r: Vec<ScriptStep>)
    ensures
        r@ == spec_init_steps(script),
{
    let mut steps: Vec<ScriptStep> = Vec::new();
    if let Some(handle) = script {
        steps.push(ScriptStep::Publish);
        steps.push(ScriptStep::RunTile(handle));
        steps.push(ScriptStep::CallInit);
        steps.push(ScriptStep::ReadBack);
    }
    proof {
        assert(steps@ =~= spec_init_steps(script));
    }
    steps
}

/// What is asked of the script engine in each frame for an object.
pub fn update_steps(script: Option<usize>) -> (r: Vec<ScriptStep>)
    ensures
        r@ == spec_update_steps(script),
{
    let mut steps: Vec<ScriptStep> = Vec::new();
    steps.push(ScriptStep::Publish);
    if let Some(handle) = script {
        steps.push(ScriptStep::RunTile(handle));
        steps.push(ScriptStep::CallUpdate);
        steps.push(ScriptStep::ReadBack);
    }
    proof {
        assert(steps@ =~= spec_update_steps(script));
    }
    steps
}

} // verus!
