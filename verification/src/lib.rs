//! Parsing and selection of the media formats that a command-line downloader
//! lists, and the decisions of a download session built on them.
//!
//! The library reads the listing that the downloader prints (`format`),
//! parts its formats by kind and height (`select`), builds the menus that a
//! user chooses from (`menu`) and the argument lists with which the
//! downloader is run (`command`). A `session` strings these together as a
//! state machine that asks its caller to do the prompting and the running.

pub mod command;
pub mod error;
pub mod format;
pub mod menu;
pub mod select;
pub mod session;
pub mod text;

pub use error::DownloadError;
pub use format::{parse_available_formats, FormatOption, MediaKind};
pub use session::{Event, Request, Session, Stage};
