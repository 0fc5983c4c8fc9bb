pub mod system;
pub mod device_list_impl;
pub mod console;
pub mod controller;
pub mod mouse;
pub mod datetime;
pub mod screen;
pub mod file;
