//! What the program does on each input of the host: a key, a pointer
//! gesture, the scroll wheel, a request to quit.

use crate::state::StateView;
use crate::view::on_canvas;
use vstd::prelude::*;

verus! {

/// A key, as far as the program tells keys apart.
#[derive(Clone, Copy, Debug, PartialEq, Eq)]
pub enum Key {
    Escape,
    Space,
    C,
    F,
    Other,
}

/// A pointer button, as far as the program tells buttons apart.
#[derive(Clone, Copy, Debug, PartialEq, Eq)]
pub enum Button {
    Left,
    Middle,
    Right,
    Other,
}

/// The buttons that are held down while the pointer moves.
#[derive(Clone, Copy, Debug, PartialEq, Eq)]
pub struct Held {
    pub left: bool,
    pub middle: bool,
    pub right: bool,
}

/// An input of the host.
#[derive(Clone, Copy, Debug, PartialEq, Eq)]
pub enum Input {
    /// The host asks the program to end.
    Quit,
    /// A key went down.
    KeyDown { key: Key },
    /// A button went down with the pointer at the pixel `(x, y)`.
    PointerDown { button: Button, x: i32, y: i32 },
    /// The pointer moved by `(dx, dy)` pixels to the pixel `(x, y)`.
    PointerMove { held: Held, x: i32, y: i32, dx: i32, dy: i32 },
    /// The wheel turned by `y` notches, away from the user if positive.
    Scroll { y: i32 },
}

/// What the host is to do after an input.
#[derive(Clone, Copy, Debug, PartialEq, Eq)]
pub enum Action {
    /// Go on with the next input.
    Continue,
    /// End the program.
    Quit,
    /// Switch between the window and the full screen.
    ToggleFullscreen,
}

/// How the window fills the screen.
#[derive(Clone, Copy, Debug, PartialEq, Eq)]
pub enum Fullscreen {
    Off,
    True,
    Desktop,
}

impl Fullscreen {
    /// The mode after a switch: the full desktop from a window, a window
    /// from either full-screen mode.
    pub open spec fn toggled(self) -> Fullscreen {
        match self {
            Fullscreen::Off => Fullscreen::Desktop,
            _ => Fullscreen::Off,
        }
    }

    /// The mode to switch to from this one.
    pub fn toggle(self) -> (next: Fullscreen)
        ensures
            next == self.toggled(),
    {
        match self {
            Fullscreen::Off => Fullscreen::Desktop,
            _ => Fullscreen::Off,
        }
    }
}

impl StateView {
    /// The state after `input`, and what the host is to do.
    ///
    /// Escape and a request to quit end the program; space flips the pause
    /// flag; `c` makes every cell dead; `f` switches the full screen. The left
    /// button makes the cell under the pointer live and the right button makes
    /// it dead, pressed or held while the pointer moves; the middle button,
    /// held alone, moves the view with the pointer. The wheel changes the
    /// scale by one, up when it turns away from the user.
    pub open spec fn react(self, input: Input) -> (StateView, Action) {
        match input {
            Input::Quit => (self, Action::Quit),
            Input::KeyDown { key } => match key {
                Key::Escape => (self, Action::Quit),
                Key::Space => (self.toggle_pause(), Action::Continue),
                Key::C => (self.reset(), Action::Continue),
                Key::F => (self, Action::ToggleFullscreen),
                Key::Other => (self, Action::Continue),
            },
            Input::PointerDown { button, x, y } => match button {
                Button::Left => (self.insert_cell(x as int, y as int), Action::Continue),
                Button::Right => (self.remove_cell(x as int, y as int), Action::Continue),
                _ => (self, Action::Continue),
            },
            Input::PointerMove { held, x, y, dx, dy } => if held.left {
                (self.insert_cell(x as int, y as int), Action::Continue)
            } else if held.right {
                (self.remove_cell(x as int, y as int), Action::Continue)
            } else if held.middle {
                (self.pan(dx as int, dy as int), Action::Continue)
            } else {
                (self, Action::Continue)
            },
            Input::Scroll { y } => if y > 0 {
                (self.change_zoom_by(1), Action::Continue)
            } else if y < 0 {
                (self.change_zoom_by(-1), Action::Continue)
            } else {
                (self, Action::Continue)
            },
        }
    }

    /// Whether the state after `input` can be held: if `input` moves the
    /// view, the pan offset after it is a pair of `i32`.
    pub open spec fn admits(self, input: Input) -> bool {
        match input {
            Input::PointerMove { held, dx, dy, .. } => !held.left && !held.right && held.middle
                ==> on_canvas(self.pan(dx as int, dy as int).translate),
            _ => true,
        }
    }
}

} // verus!
