//! Core logic of a configurable terminal clock: settings, alarms, the
//! seven-segment layout, picker navigation and the self-playing snake board.
pub mod alarm;
pub mod alarm_screen;
pub mod arith;
pub mod bcd;
pub mod blocks;
pub mod calendar;
pub mod cli;
pub mod color;
pub mod compact;
pub mod config;
pub mod flip;
pub mod glyph_laws;
pub mod grid;
pub mod keys;
pub mod laws;
pub mod manager;
pub mod matrix;
pub mod numparse;
pub mod screen;
pub mod seg7;
pub mod session;
pub mod schedule_laws;
pub mod settings;
pub mod snake;
pub mod snake_face;
pub mod text;
