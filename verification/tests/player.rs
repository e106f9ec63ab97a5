use kimi_voxel::player::camera::CameraMode;
use kimi_voxel::player::flight::{FlightKey, FlightState, MovementMode};

#[test]
fn camera_modes_cycle() {
    let m = CameraMode::FirstPerson;
    assert_eq!(m.next(), CameraMode::ThirdPersonBack);
    assert_eq!(m.next().next(), CameraMode::ThirdPersonFront);
    assert_eq!(m.next().next().next(), m);
}

#[test]
fn player_model_shown_only_in_third_person() {
    assert!(!CameraMode::FirstPerson.shows_player());
    assert!(CameraMode::ThirdPersonBack.shows_player());
    assert!(CameraMode::ThirdPersonFront.shows_player());
}

#[test]
fn flight_starts_walking() {
    let f = FlightState::new();
    assert_eq!(f.mode, MovementMode::Walking);
    assert!(!f.is_flying());
    assert_eq!(f.vertical_direction(), 0);
}

#[test]
fn flight_key_f_toggles_on_press_only() {
    let mut f = FlightState::new();
    assert!(!f.process_keyboard(FlightKey::F, false));
    assert!(!f.is_flying());
    assert!(f.process_keyboard(FlightKey::F, true));
    assert!(f.is_flying());
    assert!(f.process_keyboard(FlightKey::F, true));
    assert!(!f.is_flying());
}

#[test]
fn flight_vertical_keys() {
    let mut f = FlightState::new();
    assert!(!f.process_keyboard(FlightKey::Space, true));
    assert_eq!(f.vertical_direction(), 0);
    f.toggle_flight();
    assert_eq!(f.vertical_direction(), 1);
    assert!(!f.process_keyboard(FlightKey::ControlLeft, true));
    assert_eq!(f.vertical_direction(), 0);
    f.process_keyboard(FlightKey::Space, false);
    assert_eq!(f.vertical_direction(), -1);
    f.process_keyboard(FlightKey::ShiftLeft, false);
    assert_eq!(f.vertical_direction(), 0);
    assert!(!f.process_keyboard(FlightKey::Other, true));
    assert_eq!(f, FlightState { mode: MovementMode::Flying, up: false, down: false });
}

#[test]
fn flight_default_is_walking() {
    assert_eq!(FlightState::default(), FlightState::new());
}
