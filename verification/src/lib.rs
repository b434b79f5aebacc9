//! A verified engine for rendering directory trees.
//!
//! The library builds an in-memory tree of filesystem entries from plain
//! values handed in by a host program, applying glob include/exclude rules,
//! gitignore-style ignore rules, hidden-entry policy, a directory-only mode,
//! depth limits and a cycle guard, while accumulating summary statistics.
//! All filesystem reads are performed by the host: the engine asks for them
//! one at a time and is itself a pure state machine.

pub mod ansi;
pub mod filter;
pub mod formatter;
pub mod gitignore;
pub mod glob;
pub mod config;
pub mod bytes;
pub mod stats;
pub mod tree;
pub mod text;

pub use ansi::{Ansi, AnsiString};
pub use bytes::Format;
pub use formatter::{Formatter, TextFormatter};
pub use filter::{FileFilter, FilterModel, RawEntry, RawModel};
pub use gitignore::{setup_gitignore, IgnoreSet};
pub use config::{resolve_config, Config, ConfigBuilder, FileConfig, OutputFormat};
pub use stats::Statistics;
pub use tree::{
    Action, EntryMeta, Event, NodeModel, NodeType, TreeBuilder, TreeError, TreeNode,
};
