//! Strings as the running program sees them.
pub mod api;
pub mod char_string;

pub use api::StringApi;
pub use char_string::CharString;
