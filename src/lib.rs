//! A power-switch gateway: it turns a command name into a CoAP request for the
//! device and the device's compact `flag:epoch` reply into a status line.

pub mod command;
pub mod config;
pub mod decimal;
pub mod laws;
pub mod reply;
pub mod status;
