//! A file-backed todo list: one item per line of a plain-text file.
//!
//! The library holds everything that can be decided without touching the
//! file system: how the command line is read ([`Config`]), what each command
//! does to the text of the list file ([`run`] and the operations in
//! [`list`]), how that text divides into items ([`lines`]), and where the
//! list file lives ([`storage`]). A caller reads and writes the files and
//! hands their text over as plain strings.

pub mod config;
pub mod error;
pub mod lines;
pub mod list;
pub mod number;
pub mod storage;
pub mod text;

pub use config::{Command, Config};
pub use error::TodoError;
pub use list::{run, Change, Input, Outcome};
pub use storage::{resolve_storage_path, storage_path, StoragePath};
