//! Gulfstream: the verified core of a self-hosted video platform.
use vstd::prelude::*;

pub mod text;
pub mod domain;
pub mod error;
pub mod links;
pub mod path;
pub mod application;
pub mod auth;
pub mod config;
pub mod cookie;
pub mod crypto;
pub mod encoding;
pub mod http;
pub mod infrastructure;
pub mod runtime;
pub mod util;
pub mod workers;

verus! {
} // verus!
