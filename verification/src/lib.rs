//! Battery monitoring for ASUS wireless mice: the HID battery protocol,
//! device discovery over sysfs, voltage-trend tracking, the notification
//! policy and the per-poll decisions of the monitor.

pub mod asus;
pub mod discovery;
pub mod hid;
pub mod monitor;
pub mod notifier;
pub mod predictor;
pub mod text;
