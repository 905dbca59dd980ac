//! What the operations of the library come to, stated in their own terms.

pub mod chrome;
pub mod host;
pub mod messages;
pub mod profile;
pub mod serve;
pub mod server;
pub mod text;
