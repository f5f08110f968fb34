//! The decisions of the tasks, one module per task.

pub mod audio;
pub mod button;
pub mod camera;
pub mod espnow;
pub mod http;
pub mod oled;
