//! Browser discovery, launch, transport and teardown.

pub mod client;
pub mod find;
pub mod flags;
pub mod kill;
pub mod launch;
pub mod pipe;

pub use client::{CdpClient, CdpError};
pub use find::{find_chrome, FindError};
pub use kill::TeardownReport;
pub use launch::{BrowserVersion, LaunchError, LaunchSpec};
pub use pipe::{CdpReader, PipeError};
