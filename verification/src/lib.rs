//! A bridge from a Bluetooth remote control to a NAD amplifier and a Sony Bravia television.
//!
//! The library decides: which key does what, what goes on the wire, what a reply means, when a
//! connection is opened, kept or given up, and what each event makes the bridge do. It holds no
//! sockets and no clock; a program around it does what it is told and reports back.
pub mod action;
pub mod bodies;
pub mod bridge;
pub mod clock;
pub mod dispatch;
pub mod fields;
pub mod framing;
pub mod hold;
pub mod http;
pub mod json;
pub mod keys;
pub mod nad;
pub mod outside;
pub mod remote;
pub mod requests;
pub mod runs;
pub mod signals;
pub mod text;
pub mod tv;
