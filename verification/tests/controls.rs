use tilemap_core::controls::{Button, Controls, Reaction, WindowInput};

#[test]
fn controls_start_released() {
    let controls = Controls::default();
    for name in ["up", "down", "left", "right", "a", "b"] {
        assert!(!controls.index(name));
    }
}

#[test]
fn buttons_are_named() {
    assert_eq!(Controls::button("up"), Some(Button::Up));
    assert_eq!(Controls::button("down"), Some(Button::Down));
    assert_eq!(Controls::button("left"), Some(Button::Left));
    assert_eq!(Controls::button("right"), Some(Button::Right));
    assert_eq!(Controls::button("a"), Some(Button::A));
    assert_eq!(Controls::button("b"), Some(Button::B));
    assert_eq!(Controls::button("c"), None);
    assert_eq!(Controls::button("Up"), None);
}

#[test]
fn set_changes_one_button() {
    let mut controls = Controls::default();
    controls.set(Button::Left, true);
    controls.set(Button::A, true);
    assert!(controls.index("left"));
    assert!(controls.index("a"));
    assert!(!controls.index("right"));
    assert!(!controls.index("b"));
    assert!(controls.held(Button::Left));
    controls.set(Button::Left, false);
    assert!(!controls.index("left"));
    assert!(controls.index("a"));
}

#[test]
fn unknown_name_reads_false() {
    let mut controls = Controls::default();
    controls.set(Button::Up, true);
    assert!(!controls.index("jump"));
    assert!(!controls.index(""));
}

#[test]
fn losing_focus_releases_everything() {
    let mut controls = Controls::default();
    controls.set(Button::Up, true);
    controls.set(Button::B, true);
    controls.release_all();
    assert_eq!(controls, Controls::default());
}

#[test]
fn window_inputs_drive_the_loop() {
    let quiet = Reaction { stop: false, resize: false, publish: false };
    let mut controls = Controls::default();
    assert_eq!(controls.react(WindowInput::Other), quiet);
    assert_eq!(controls.react(WindowInput::CloseRequested), Reaction { stop: true, ..quiet });
    assert_eq!(controls.react(WindowInput::Resized), Reaction { resize: true, ..quiet });
    assert_eq!(controls, Controls::default());
}

#[test]
fn keys_set_buttons_and_are_published() {
    let published = Reaction { stop: false, resize: false, publish: true };
    let mut controls = Controls::default();
    let down = WindowInput::Key { button: Some(Button::Right), pressed: true };
    assert_eq!(controls.react(down), published);
    assert!(controls.right);
    let stray = WindowInput::Key { button: None, pressed: true };
    assert_eq!(controls.react(stray), published);
    assert_eq!(controls, Controls { right: true, ..Controls::default() });
    let up = WindowInput::Key { button: Some(Button::Right), pressed: false };
    assert_eq!(controls.react(up), published);
    assert_eq!(controls, Controls::default());
}

#[test]
fn focus_loss_releases_and_publishes() {
    let mut controls = Controls::default();
    controls.react(WindowInput::Key { button: Some(Button::A), pressed: true });
    controls.react(WindowInput::Key { button: Some(Button::Up), pressed: true });
    let reaction = controls.react(WindowInput::FocusLost);
    assert_eq!(reaction, Reaction { stop: false, resize: false, publish: true });
    assert_eq!(controls, Controls::default());
}
