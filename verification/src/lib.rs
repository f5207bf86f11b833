//! SimDeck: the rules of a service that streams and drives simulators.
//!
//! The library decides; the program around it talks to the system.
#![allow(unused_imports)]

pub mod arguments;
pub mod auth;
pub mod cli;
pub mod commands;
pub mod credentials;
pub mod devices;
pub mod encoding;
pub mod error;
pub mod health;
pub mod input;
pub mod json;
pub mod launch;
pub mod launch_agent;
pub mod metadata;
pub mod modes;
pub mod net;
pub mod numbers;
pub mod pairing;
pub mod path_shape;
pub mod paths;
pub mod plist_binary;
pub mod plist_guard;
pub mod plist_text;
pub mod processes;
pub mod quoting;
pub mod serve;
pub mod service;
pub mod start;
pub mod studio;
pub mod text;
pub mod webkit;
pub mod written_plist;
