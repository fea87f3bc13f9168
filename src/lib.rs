//! Reading and writing the desktop's network proxy configuration.
//!
//! The library decides what to read from or write to the desktop's settings
//! store and how to encode and decode the values found there. Running the
//! store's command-line tools is left to the caller: it executes the
//! [`Invocation`]s built here and hands the raw output back.
use vstd::prelude::*;

pub mod types;
pub mod text;
pub mod codec;
pub mod store;
pub mod adapter;
pub mod laws;

pub use types::{Desktop, Error, Field, ProxyView, Reply, Service, Sysproxy};
pub use codec::strip_str;
pub use store::{command, config_path, detect, Invocation, Setting};
pub use adapter::{next_step, Assignment, Query, Step};
