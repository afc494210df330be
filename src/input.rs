//! Which arrow keys are held, kept in a value that the frame loop owns
//! rather than in globals, and the camera motion they ask for.
use vstd::prelude::*;

verus! {

/// The windowing library's key codes for the arrow keys.
pub const KEY_RIGHT: i32 = 262;
pub const KEY_LEFT: i32 = 263;
pub const KEY_DOWN: i32 = 264;
pub const KEY_UP: i32 = 265;

/// The windowing library's key actions.
pub const ACTION_RELEASE: i32 = 0;
pub const ACTION_PRESS: i32 = 1;

/// How fast the camera pans while an arrow key is held, in pixels per second.
pub const CAMERA_SPEED: i32 = 500;

/// An arrow key.
#[derive(Clone, Copy, Debug, PartialEq, Eq, Structural)]
pub enum Button {
    Right,
    Left,
    Up,
    Down,
}

/// The arrow key with a given key code, if it is one.
pub open spec fn button_of(key: i32) -> Option<Button> {
    if key == KEY_RIGHT {
        Some(Button::Right)
    } else if key == KEY_LEFT {
        Some(Button::Left)
    } else if key == KEY_UP {
        Some(Button::Up)
    } else if key == KEY_DOWN {
        Some(Button::Down)
    } else {
        None
    }
}

/// Whether each arrow key is held.
#[derive(Clone, Copy, Debug, PartialEq, Eq, Structural)]
pub struct InputState {
    right: bool,
    left: bool,
    up: bool,
    down: bool,
}

impl InputState {
    pub closed spec fn held(&self, b: Button) -> bool {
        match b {
            Button::Right => self.right,
            Button::Left => self.left,
            Button::Up => self.up,
            Button::Down => self.down,
        }
    }

    /// Whether `b` is held after the key event `(key, action)`, given the
    /// state before it: a press holds the key, a release lets it go, and any
    /// other event leaves it as it was.
    pub open spec fn held_after(&self, key: i32, action: i32, b: Button) -> bool {
        if button_of(key) == Some(b) && action == ACTION_PRESS {
            true
        } else if button_of(key) == Some(b) && action == ACTION_RELEASE {
            false
        } else {
            self.held(b)
        }
    }

    /// No key held.
    pub fn new() -> (r: InputState)
        ensures
            forall|b: Button| !r.held(b),
    {
        InputState { right: false, left: false, up: false, down: false }
    }

    /// The arrow key with this key code, if it is one.
    pub fn button_for_key(key: i32) -> (r: Option<Button>)
        ensures
            r == button_of(key),
    {
        if key == KEY_RIGHT {
            Some(Button::Right)
        } else if key == KEY_LEFT {
            Some(Button::Left)
        } else if key == KEY_UP {
            Some(Button::Up)
        } else if key == KEY_DOWN {
            Some(Button::Down)
        } else {
            None
        }
    }

    /// Takes in one key event.
    pub fn handle_key(&mut self, key: i32, action: i32)
        ensures
            forall|b: Button| final(self).held(b) == old(self).held_after(key, action, b),
    {
        let held = if action == ACTION_PRESS {
            true
        } else if action == ACTION_RELEASE {
            false
        } else {
            return;
        };
        match InputState::button_for_key(key) {
            Some(Button::Right) => self.right = held,
            Some(Button::Left) => self.left = held,
            Some(Button::Up) => self.up = held,
            Some(Button::Down) => self.down = held,
            None => {},
        }
    }

    /// Whether `b` is held.
    pub fn is_key_down(&self, b: Button) -> (r: bool)
        ensures
            r == self.held(b),
    {
        match b {
            Button::Right => self.right,
            Button::Left => self.left,
            Button::Up => self.up,
            Button::Down => self.down,
        }
    }

    /// The camera's velocity in pixels per second: held left pans it right,
    /// held right pans it left, held up pans it up, held down pans it down;
    /// opposite keys cancel.
    pub fn camera_velocity(&self) -> (r: (i32, i32))
        ensures
            r.0 == CAMERA_SPEED * ((if self.held(Button::Left) { 1int } else { 0 }) - (if self.held(
                Button::Right,
            ) {
                1int
            } else {
                0
            })),
            r.1 == CAMERA_SPEED * ((if self.held(Button::Up) { 1int } else { 0 }) - (if self.held(
                Button::Down,
            ) {
                1int
            } else {
                0
            })),
    {
        let mut x: i32 = 0;
        let mut y: i32 = 0;
        if self.right {
            x = x - CAMERA_SPEED;
        }
        if self.left {
            x = x + CAMERA_SPEED;
        }
        if self.up {
            y = y + CAMERA_SPEED;
        }
        if self.down {
            y = y - CAMERA_SPEED;
        }
        (x, y)
    }
}

} // verus!
