use vstd::prelude::*;

verus! {

/// How the player moves.
#[derive(Debug, Clone, Copy, PartialEq, Eq, Structural)]
pub enum MovementMode {
    /// Walking, with gravity.
    Walking,
    /// Flying freely.
    Flying,
}



/// The other movement mode.
pub open spec fn toggled_mode(m: MovementMode) -> MovementMode {
    match m {
        MovementMode::Walking => MovementMode::Flying,
        MovementMode::Flying => MovementMode::Walking,
    }
}

/// A key the flight controls react to; every other key is `Other`.
#[derive(Debug, Clone, Copy, PartialEq, Eq, Structural)]
pub enum FlightKey {
    /// Toggles flight when pressed.
    F,
    /// Rises while held.
    Space,
    /// Sinks while held.
    ShiftLeft,
    /// Sinks while held.
    ControlLeft,
    Other,
}

/// The flight controls: the movement mode and whether the rise and sink keys are held.
#[derive(Debug, Clone, Copy, PartialEq, Eq, Structural)]
pub struct FlightState {
    pub mode: MovementMode,
    pub up: bool,
    pub down: bool,
}

impl FlightState {
    /// Walking, with no key held.
    pub fn new() -> (r: Self)
        ensures
            r == (FlightState { mode: MovementMode::Walking, up: false, down: false }),
    {
        FlightState { mode: MovementMode::Walking, up: false, down: false }
    }

    /// Switches between walking and flying; the held keys stay as they are.
    pub fn toggle_flight(&mut self)
        ensures
            *final(self) == (FlightState { mode: toggled_mode(old(self).mode), ..*old(self) }),
    {
        self.mode = match self.mode {
            MovementMode::Walking => MovementMode::Flying,
            MovementMode::Flying => MovementMode::Walking,
        };
    }

    /// Whether the player flies.
    pub fn is_flying(&self) -> (r: bool)
        ensures
            r == (self.mode == MovementMode::Flying),
    {
        match self.mode {
            MovementMode::Flying => true,
            MovementMode::Walking => false,
        }
    }

    /// Handles a key going down (`pressed`) or up. Pressing F toggles flight and is the only key
    /// that is consumed (`true`); Space sets the rise key, left Shift and left Control set the
    /// sink key, and are left for the walking controls too.
    pub fn process_keyboard(&mut self, key: FlightKey, pressed: bool) -> (r: bool)
        ensures
            r == (key == FlightKey::F && pressed),
            final(self).mode == if r { toggled_mode(old(self).mode) } else { old(self).mode },
            final(self).up == if key == FlightKey::Space { pressed } else { old(self).up },
            final(self).down == if key == FlightKey::ShiftLeft || key == FlightKey::ControlLeft {
                pressed
            } else {
                old(self).down
            },
    {
        match key {
            FlightKey::F => {
                if pressed {
                    self.toggle_flight();
                    true
                } else {
                    false
                }
            },
            FlightKey::Space => {
                self.up = pressed;
                false
            },
            FlightKey::ShiftLeft | FlightKey::ControlLeft => {
                self.down = pressed;
                false
            },
            FlightKey::Other => false,
        }
    }

    /// The direction of vertical flight: none when walking, else up for the rise key minus down
    /// for the sink key (they cancel when both are held).
    pub fn vertical_direction(&self) -> (r: i32)
        ensures
            r == if self.mode == MovementMode::Flying {
                (if self.up { 1int } else { 0int }) - (if self.down { 1int } else { 0int })
            } else {
                0int
            },
    {
        if !self.is_flying() {
            return 0;
        }
        let mut v: i32 = 0;
        if self.up {
            v = v + 1;
        }
        if self.down {
            v = v - 1;
        }
        v
    }
}

/// Law: toggling flight twice gives back the mode one started with, and toggling always changes it.
pub proof fn lemma_toggle_flight_twice(m: MovementMode)
    ensures
        toggled_mode(toggled_mode(m)) == m,
        toggled_mode(m) != m,
{
}

impl Default for FlightState {
    /// Walking, with no key held.
    fn default() -> (r: Self)
        ensures
            r == (FlightState { mode: MovementMode::Walking, up: false, down: false }),
    {
        Self::new()
    }
}

} // verus!
