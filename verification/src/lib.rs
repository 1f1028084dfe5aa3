//! Verified core of `byt`, a keyboard-driven VPN switcher for Linux.
use vstd::prelude::*;

pub mod app;
pub mod cli;
pub mod config;
pub mod error;
pub mod path;
pub mod text;
pub mod vpn;

verus! {
} // verus!
