//! The six buttons that scripts read, and what the window's events do to
//! them and to the frame loop.

use vstd::prelude::*;
use crate::text::same_text;

verus! {

/// One of the six buttons.
#[derive(Clone, Copy, Debug, PartialEq, Eq, Structural)]
pub enum Button {
    Up,
    Down,
    Left,
    Right,
    A,
    B,
}

/// Which buttons are held down.
#[derive(Clone, Copy, Debug, PartialEq, Eq, Structural)]
pub struct Controls {
    pub up: bool,
    pub down: bool,
    pub left: bool,
    pub right: bool,
    pub a: bool,
    pub b: bool,
}

impl Default for Controls {
    fn default() -> (r: Controls)
        ensures
            r == Controls::spec_released(),
    {
        Controls { up: false, down: false, left: false, right: false, a: false, b: false }
    }
}

impl Controls {
    /// No button held down.
    pub open spec fn spec_released() -> Controls {
        Controls { up: false, down: false, left: false, right: false, a: false, b: false }
    }

    /// The state of one button.
    pub open spec fn spec_held(self, button: Button) -> bool {
        match button {
            Button::Up => self.up,
            Button::Down => self.down,
            Button::Left => self.left,
            Button::Right => self.right,
            Button::A => self.a,
            Button::B => self.b,
        }
    }

    /// The button that a script names, if the name is one of the six.
    pub open spec fn spec_button(name: Seq<char>) -> Option<Button> {
        if name == "up"@ {
            Some(Button::Up)
        } else if name == "down"@ {
            Some(Button::Down)
        } else if name == "left"@ {
            Some(Button::Left)
        } else if name == "right"@ {
            Some(Button::Right)
        } else if name == "a"@ {
            Some(Button::A)
        } else if name == "b"@ {
            Some(Button::B)
        } else {
            None
        }
    }

    /// The button that a script names, if the name is one of the six.
    pub fn button(name: &str) -> (r: Option<Button>)
        ensures
            r == Controls::spec_button(name@),
    {
        if same_text(name, "up") {
            Some(Button::Up)
        } else if same_text(name, "down") {
            Some(Button::Down)
        } else if same_text(name, "left") {
            Some(Button::Left)
        } else if same_text(name, "right") {
            Some(Button::Right)
        } else if same_text(name, "a") {
            Some(Button::A)
        } else if same_text(name, "b") {
            Some(Button::B)
        } else {
            None
        }
    }

    /// Whether `button` is held down.
    pub fn held(&self, button: Button) -> (r: bool)
        ensures
            r == self.spec_held(button),
    {
        match button {
            Button::Up => self.up,
            Button::Down => self.down,
            Button::Left => self.left,
            Button::Right => self.right,
            Button::A => self.a,
            Button::B => self.b,
        }
    }

    /// What a script reads under `name`: the state of the button of that
    /// name, and `false` for any other name.
    pub fn index(&self, name: &str) -> (r: bool)
        ensures
            r == match Controls::spec_button(name@) {
                Some(button) => self.spec_held(button),
                None => false,
            },
    {
        match Controls::button(name) {
            Some(button) => self.held(button),
            None => false,
        }
    }

    /// The controls with `button` down or up as `pressed` says, and the
    /// other buttons as they are.
    pub open spec fn spec_with(self, button: Button, pressed: bool) -> Controls {
        match button {
            Button::Up => Controls { up: pressed, ..self },
            Button::Down => Controls { down: pressed, ..self },
            Button::Left => Controls { left: pressed, ..self },
            Button::Right => Controls { right: pressed, ..self },
            Button::A => Controls { a: pressed, ..self },
            Button::B => Controls { b: pressed, ..self },
        }
    }

    /// Records that `button` went down or came up; the others keep their state.
    pub fn set(&mut self, button: Button, pressed: bool)
        ensures
            *final(self) == old(self).spec_with(button, pressed),
            final(self).spec_held(button) == pressed,
            forall|other: Button| other != button ==> final(self).spec_held(other) == old(self).spec_held(other),
    {
        match button {
            Button::Up => self.up = pressed,
            Button::Down => self.down = pressed,
            Button::Left => self.left = pressed,
            Button::Right => self.right = pressed,
            Button::A => self.a = pressed,
            Button::B => self.b = pressed,
        }
    }

    /// Releases every button, as when the window loses focus.
    pub fn release_all(&mut self)
        ensures
            *final(self) == Controls::spec_released(),
    {
        *self = Controls::default();
    }
}

/// What the window reports between two frames, as far as the game listens.
#[derive(Clone, Copy, Debug, PartialEq, Eq, Structural)]
pub enum WindowInput {
    /// The window was asked to close.
    CloseRequested,
    /// The window changed its size.
    Resized,
    /// A key went down or came up: the button that the key stands for, if it
    /// stands for one.
    Key { button: Option<Button>, pressed: bool },
    /// The window lost the focus.
    FocusLost,
    /// Anything else.
    Other,
}

/// What the frame loop has to do after an input.
#[derive(Clone, Copy, Debug, PartialEq, Eq, Structural)]
pub struct Reaction {
    /// Leave the loop.
    pub stop: bool,
    /// Fit the render target to the window.
    pub resize: bool,
    /// Publish the controls to the scripts again.
    pub publish: bool,
}

impl Controls {
    /// The controls after an input: a key that stands for a button sets that
    /// button, losing the focus releases all of them, and nothing else
    /// touches them.
    pub open spec fn spec_after(self, input: WindowInput) -> Controls {
        match input {
            WindowInput::Key { button: Some(button), pressed } => self.spec_with(button, pressed),
            WindowInput::FocusLost => Controls::spec_released(),
            _ => self,
        }
    }

    /// What the frame loop has to do after an input: a request to close
    /// stops it, a new size refits the render target, and every key and
    /// every loss of focus has the controls published again.
    pub open spec fn spec_reaction(input: WindowInput) -> Reaction {
        Reaction {
            stop: input is CloseRequested,
            resize: input is Resized,
            publish: input is Key || input is FocusLost,
        }
    }

    /// Takes in one input of the window and says what the frame loop has to
    /// do after it.
    pub fn react(&mut self, input: WindowInput) -> (r: Reaction)
        ensures
            *final(self) == old(self).spec_after(input),
            r == Controls::spec_reaction(input),
    {
        match input {
            WindowInput::CloseRequested => Reaction { stop: true, resize: false, publish: false },
            WindowInput::Resized => Reaction { stop: false, resize: true, publish: false },
            WindowInput::Key { button, pressed } => {
                if let Some(button) = button {
                    self.set(button, pressed);
                }
                Reaction { stop: false, resize: false, publish: true }
            },
            WindowInput::FocusLost => {
                self.release_all();
                Reaction { stop: false, resize: false, publish: true }
            },
            WindowInput::Other => Reaction { stop: false, resize: false, publish: false },
        }
    }
}

} // verus!
