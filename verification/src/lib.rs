//! Control logic for a USB tri-color tower light with buzzer: the logical
//! light state, the hardware command bytes, the blink-effect engine and the
//! planning of REST requests.

pub mod api;
pub mod engine;
pub mod hardware;
pub mod reconnect;
pub mod state;
