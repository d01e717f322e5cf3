//! The client side: what it holds of a host, the steps of its handshake and
//! the controller of its session.

pub mod config;
pub mod controller;
pub mod data;
pub mod error;
pub mod handshake;
