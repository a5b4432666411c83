use tilemap_core::script::{init_steps, update_steps, ScriptStep};

#[test]
fn unscripted_tile_only_publishes_each_frame() {
    assert_eq!(update_steps(None), vec![ScriptStep::Publish]);
    assert_eq!(init_steps(None), vec![]);
}

#[test]
fn scripted_tile_runs_its_script_then_the_global_entry_point() {
    assert_eq!(
        update_steps(Some(3)),
        vec![ScriptStep::Publish, ScriptStep::RunTile(3), ScriptStep::CallUpdate, ScriptStep::ReadBack]
    );
    assert_eq!(
        init_steps(Some(3)),
        vec![ScriptStep::Publish, ScriptStep::RunTile(3), ScriptStep::CallInit, ScriptStep::ReadBack]
    );
}
