use vstd::prelude::*;

verus! {

/// Where the camera is: in the player's eyes, behind the player, or in front looking back.
#[derive(Debug, Clone, Copy, PartialEq, Eq, Structural)]
pub enum CameraMode {
    FirstPerson,
    ThirdPersonBack,
    ThirdPersonFront,
}

/// The mode after `m` in the cycle first person, behind, in front.
pub open spec fn spec_next(m: CameraMode) -> CameraMode {
    match m {
        CameraMode::FirstPerson => CameraMode::ThirdPersonBack,
        CameraMode::ThirdPersonBack => CameraMode::ThirdPersonFront,
        CameraMode::ThirdPersonFront => CameraMode::FirstPerson,
    }
}

impl CameraMode {
    /// The next mode in the cycle.
    pub fn next(self) -> (r: Self)
        ensures
            r == spec_next(self),
    {
        match self {
            CameraMode::FirstPerson => CameraMode::ThirdPersonBack,
            CameraMode::ThirdPersonBack => CameraMode::ThirdPersonFront,
            CameraMode::ThirdPersonFront => CameraMode::FirstPerson,
        }
    }

    /// Whether the player's own model is drawn: in both third-person modes, not in first person.
    pub fn shows_player(self) -> (r: bool)
        ensures
            r == (self != CameraMode::FirstPerson),
    {
        match self {
            CameraMode::FirstPerson => false,
            CameraMode::ThirdPersonBack | CameraMode::ThirdPersonFront => true,
        }
    }
}

/// Law: switching modes three times comes back to the starting mode, and never sooner.
pub proof fn lemma_camera_cycle(m: CameraMode)
    ensures
        spec_next(spec_next(spec_next(m))) == m,
        spec_next(m) != m,
        spec_next(spec_next(m)) != m,
{
}

} // verus!
