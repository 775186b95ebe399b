//! Scaffolding and incremental feature addition for multi-loader mod projects.
//!
//! - `config`: the project descriptor.
//! - `gradle`: idempotent line edits of the include list and property file.
//! - `template`: template variables and placeholder rendering.
//! - `add`, `init`: the file steps that add a feature or create a project.
//! - `update`: release selection and executable replacement.
//! - `global_config`: user preference keys and values, dev-defaults data pack.
//! - `versions`: choosing versions from release listings.
//! - `util`, `text`: identifiers, names, and character-sequence helpers.
pub mod add;
pub mod config;
pub mod error;
pub mod global_config;
pub mod gradle;
pub mod init;
pub mod template;
pub mod text;
pub mod update;
pub mod util;
pub mod versions;
