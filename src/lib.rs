//! A small credential store for TOTP secrets.
//!
//! The store file is a list of `name = secret` lines. This library holds the
//! logic that reads and edits that list and derives one-time codes; reading
//! and writing the file itself is left to the caller.

pub mod app;
pub mod clip;
pub mod error;
pub mod lemmas;
pub mod store;
pub mod text;
pub mod totp;

pub use app::{App, Command, Effect, Outcome};
pub use clip::{Clip, ClipCommand};
pub use error::OvaError;
pub use store::Store;
pub use totp::get_2fa_code;

