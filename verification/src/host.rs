//! The host side: configuration, the session store, the recording index and
//! the decisions behind each endpoint.

pub mod config;
pub mod data;
pub mod database;
pub mod error;
pub mod handler;
