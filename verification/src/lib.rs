//! The core of a terminal Bluetooth manager.
//!
//! The library decides; the program around it talks to BlueZ, to the sound server and to the
//! terminal. [`session`] takes events and returns the work they ask for, [`screen`] says what the
//! terminal shows, and [`laws`] states what holds of the whole. What the operations are for is stated
//! of the calls themselves in [`key_laws`], [`event_laws`], [`agent_laws`], [`bus_laws`],
//! [`report_laws`], [`audio_laws`] and [`display_laws`].
#![allow(unused_imports)]

pub mod agent;
pub mod agent_laws;
pub mod app;
pub mod audio;
pub mod audio_laws;
pub mod bluetooth;
pub mod bus;
pub mod bus_laws;
pub mod cli;
pub mod display_laws;
pub mod event_laws;
pub mod key_laws;
pub mod keys;
pub mod laws;
pub mod listing_laws;
pub mod number;
pub mod process;
pub mod report_laws;
pub mod screen;
pub mod screen_laws;
pub mod session;
pub mod states;
pub mod text;
