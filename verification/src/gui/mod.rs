pub mod hotbar;
pub mod inventory;
pub mod menu;
pub mod text;
pub mod fps;
pub mod mouse;
