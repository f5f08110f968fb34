//! SrkOS: the hardware-independent core of an async companion OS for the ESP32.

pub mod hardware;
pub mod ipc;
pub mod json;
pub mod tasks;
pub mod text;
