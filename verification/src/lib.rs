//! A pomodoro timer: a countdown anchored to a wall-clock deadline, the
//! commands that drive it over a pipe, the plugin's state machine, and the
//! layout of what it draws.

pub mod command;
pub mod layout;
pub mod plugin;
pub mod text;
pub mod timer;
