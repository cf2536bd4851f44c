//! A verified session core for the Soniox real-time speech recognition service.
#![allow(unused_imports)]

pub mod config;
pub mod error;
pub mod event;
pub mod handshake;
pub mod json;
pub mod laws;
pub mod message;
pub mod provider;
pub mod response;
pub mod session;
pub mod text;
