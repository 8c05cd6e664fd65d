//! Reading and writing the desktop's system proxy settings (GNOME `gsettings`
//! and KDE `kreadconfig`/`kwriteconfig`), as verified logic: which commands
//! read and write the settings, and how their output is read.
//!
//! Running the commands is left to the caller: each operation that writes
//! returns the commands to run, in order, and each operation that reads takes
//! the output of the commands that its query names.

pub mod desktop;
pub mod laws;
pub mod linux;
pub mod sysproxy;
pub mod text;

pub use desktop::{is_kde, Command, Desktop};
pub use linux::{ProxyOutput, Service};
pub use sysproxy::{Autoproxy, Error, Result, Sysproxy};
pub use text::strip_str;
