pub mod audio;
pub mod autostart;
pub mod config;
pub mod draw;
pub mod finish;
pub mod hotkey;
pub mod model;
pub mod process;
pub mod session;
pub mod text;
pub mod ui;
pub mod words;
