//! What the user controls: the pause, the drawing mode and the two
//! connector switches, and the keys and buttons that change them.
use vstd::prelude::*;

verus! {

/// How the field of stars is drawn.
#[derive(Clone, Copy, Debug, PartialEq, Eq, Structural)]
pub enum DrawMode {
    /// One disc for each star.
    Points,
    /// Connectors from each star to its nearest later stars.
    Lines,
}

/// A key of the keyboard, as far as the animation tells keys apart.
#[derive(Clone, Copy, Debug, PartialEq, Eq, Structural)]
pub enum Key {
    Space,
    P,
    N,
    S,
    Other,
}

/// A button of the pointer.
#[derive(Clone, Copy, Debug, PartialEq, Eq, Structural)]
pub enum MouseButton {
    Left,
    Right,
    Middle,
    Other,
}

/// The switches that the user sets.
#[derive(Clone, Copy, Debug, PartialEq, Eq, Structural)]
pub struct Controls {
    /// Whether the simulation advances.
    pub running: bool,
    /// How the field is drawn.
    pub draw_mode: DrawMode,
    /// Whether the coloured connector to the nearest star is drawn.
    pub primary_nearest: bool,
    /// Whether the gray connector to the second nearest star is drawn.
    pub secondary_nearest: bool,
}

impl DrawMode {
    /// The other mode.
    pub open spec fn toggled(self) -> DrawMode {
        match self {
            DrawMode::Points => DrawMode::Lines,
            DrawMode::Lines => DrawMode::Points,
        }
    }
}

impl Controls {
    /// The switches as they are when the animation starts: running, in line
    /// mode, with the connector to the nearest star only.
    pub open spec fn initial() -> Controls {
        Controls {
            running: true,
            draw_mode: DrawMode::Lines,
            primary_nearest: true,
            secondary_nearest: false,
        }
    }

    /// The switches after `key` was released.
    pub open spec fn after_key(self, key: Key) -> Controls {
        match key {
            Key::Space => Controls { running: !self.running, ..self },
            Key::P => Controls { draw_mode: self.draw_mode.toggled(), ..self },
            Key::N => Controls { primary_nearest: !self.primary_nearest, ..self },
            Key::S => Controls { secondary_nearest: !self.secondary_nearest, ..self },
            Key::Other => self,
        }
    }

    /// The switches as they are when the animation starts.
    pub fn new() -> (c: Controls)
        ensures
            c == Controls::initial(),
    {
        Controls {
            running: true,
            draw_mode: DrawMode::Lines,
            primary_nearest: true,
            secondary_nearest: false,
        }
    }

    /// Reacts to the release of a key: the space bar pauses and resumes, `P`
    /// changes the drawing mode, `N` and `S` switch the connectors to the
    /// nearest and to the second nearest star. Any other key changes nothing.
    pub fn key_up_event(&mut self, key: Key)
        ensures
            *final(self) == old(self).after_key(key),
    {
        match key {
            Key::Space => {
                self.running = !self.running;
            },
            Key::P => {
                self.draw_mode =
                match self.draw_mode {
                    DrawMode::Points => DrawMode::Lines,
                    DrawMode::Lines => DrawMode::Points,
                };
            },
            Key::N => {
                self.primary_nearest = !self.primary_nearest;
            },
            Key::S => {
                self.secondary_nearest = !self.secondary_nearest;
            },
            Key::Other => {},
        }
    }
}

/// Releasing the same key twice leaves the switches as they were.
pub proof fn lemma_key_twice(c: Controls, key: Key)
    ensures
        c.after_key(key).after_key(key) == c,
{
}

} // verus!
