//! A sans-I/O client for the clips and users endpoints of the Twitch API.
//!
//! The crate decides which requests are made and what their answers mean;
//! sending a request and decoding its body is left to the caller. Each query
//! comes in two halves: the function named for the query gives what is to be
//! requested, and its companion, named with `_fetched` at the end, takes the
//! answers.

pub mod client;
pub mod clips;
pub mod config;
pub mod creators;
pub mod error;
pub mod report;
pub mod session;
pub mod text;
pub mod user;

pub use crate::client::{send_request, ClientOptions, Request};
pub use crate::error::{FetchError, TwitchError};
pub use crate::session::Twitch;
