//! Game logic of a cable-sorting trainer: eight network-cable wires are
//! dragged into the eight pins of a connector in T568A or T568B order.
//! Drawing, input and floating-point geometry live outside this crate; the
//! library holds every decision that those parts hand it.
#![allow(non_camel_case_types)]

pub mod rules;
pub mod cables;
pub mod buttons;
pub mod sliders;
pub mod texts;
pub mod setup;
pub mod state;
pub mod laws;
pub mod game_laws;
pub mod frame_laws;
