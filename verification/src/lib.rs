//! Webserve: the verified core of a static file server.
//!
//! The library decides everything the server does that is not plain I/O:
//! how a request path is split, normalized and resolved against the served
//! tree, how a directory listing is rendered, how a reload script is appended
//! to HTML responses, how the reload fan-out advances, and how command-line
//! options are parsed.  The thin binary around it performs the filesystem
//! probes, the HTTP transport and the waiting, and feeds plain values in.

pub mod compose;
pub mod listing;
pub mod options;
pub mod paths;
pub mod reload;
pub mod resolve;

pub use compose::{compose, reload_script};
pub use listing::directory_listing;
pub use options::{OptionsError, ServeOptions};
pub use paths::{is_html_path, request_segments};
pub use reload::{Broadcaster, PollOutcome, Subscription, reload_message, should_respond};
pub use resolve::{EntryKind, FsEntry, FsTree, Resolution, resolve};
