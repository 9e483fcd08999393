pub mod bridge;
pub mod config;
pub mod homeassistant;
pub mod i2c;
pub mod util;
