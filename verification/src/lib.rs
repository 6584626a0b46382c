//! Verified core of a bedside smart alarm clock: the alarm state machines,
//! the command bus, the text and wire formats the device speaks (MQTT topics,
//! REST helpers, captive-portal DNS replies, DS3231 registers) and the
//! dot-matrix framebuffer.

pub mod alarm;
pub mod alarm_laws;
pub mod firmware;
pub mod led;
pub mod mqtt;
pub mod net;
pub mod state;
pub mod text;
