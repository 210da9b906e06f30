//! Bridge logic for Casa Vieja ceiling fans: the RF frame format, the
//! CC1101 chip encoding and register plan, speed snapping, Home Assistant
//! entity naming, the daemon's service decisions and the HomeKit mapping.

pub mod cc1101;
pub mod text;
pub mod state;
pub mod entity;
pub mod speed;
pub mod protocol;
pub mod daemon;
pub mod homekit;
pub mod ook;
pub mod config;
pub mod ha;
pub mod ws;
