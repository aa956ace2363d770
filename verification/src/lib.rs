//! Game logic and LED-matrix driver of a one-player shooter on an 8x8 RGB
//! matrix behind a DM163 colour shield, with a light bouncing along the
//! board's four LEDs.
//!
//! - `bus`: the register accesses of the colour shield and what they clock
//!   into the driver.
//! - `panel`: the frame buffer, storing and painting pixels, refreshing one
//!   line at a time, and the driver's setup.
//! - `game`: the game's state, its three events, and the handlers for them.
//! - `laws`: what holds of the game across events.
//! - `blink`: the light on the board's LEDs.
pub mod blink;
pub mod bus;
pub mod game;
pub mod laws;
pub mod panel;
