//! Firmware logic of a desk panel built round an ESP32: a 20x4 character LCD, buttons, an
//! infrared remote, a climate sensor, a LAN lamp and a small web page.
//!
//! Everything here is computation on plain values. Drivers, sockets, threads and clocks live in
//! the application, which hands in what it read and carries out what it gets back.

pub mod api;
pub mod bits;
pub mod cache;
pub mod calendar;
pub mod cgram;
pub mod chart;
pub mod clock;
pub mod config;
pub mod desk;
pub mod dht22;
pub mod double;
pub mod fmt;
pub mod glyphs;
pub mod history;
pub mod ir_remote;
pub mod json;
pub mod laws;
pub mod lcd;
pub mod led;
pub mod media;
pub mod ota;
pub mod panel;
pub mod persist;
pub mod pulse;
pub mod sand;
pub mod screen;
pub mod text;
pub mod ticker;
pub mod tuya;
pub mod volume;
pub mod web;
