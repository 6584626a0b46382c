//! The current device firmware: eight alarm slots with implicit arming.

pub mod alarm;
pub mod alarm_laws;
pub mod button;
pub mod buzzer;
pub mod display;
pub mod dns;
pub mod rtc;
pub mod state;
