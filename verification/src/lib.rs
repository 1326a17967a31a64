//! A secret-tagged configuration value tree.
//!
//! The crate models configuration values loaded from a file: every scalar
//! carries a secrecy tag that decides whether it is redacted when rendered,
//! while objects and lists preserve nested structure.  It offers conversion
//! between plain (untagged) trees and tagged trees, whole-tree tag flips,
//! a case-insensitive ordered map for object keys, and a dotted/indexed
//! path accessor.  All file, environment and parser work stays outside, in
//! a thin loader that exchanges plain values with this crate.
mod error;
mod load;
pub mod cmp;
pub mod display;
pub mod path;
pub mod sec;
pub mod types;
pub mod value;

pub use error::SecReason;
pub use load::{galaxy_dot_path, resolve_home_dir, sec_value_default_path};
