pub mod camera;
pub mod flight;
