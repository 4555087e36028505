//! Battery Health Keeper: prolongs battery lifespan by setting an upper charge limit through
//! the kernel's `/sys/class/power_supply` tree.
//!
//! The library decides; the program around it reads and writes files and draws the window. What
//! the program found comes in as plain values, what it is to do goes out as plain values.
pub mod battery;
pub mod capacity;
pub mod desktop;
pub mod icon;
pub mod keeper;
pub mod language;
pub mod limit_run;
pub mod locales;
pub mod panel;
pub mod path;
pub mod settings;
pub mod text;
pub mod threshold;
