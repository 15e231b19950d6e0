//! Manifest-driven dotfile materialization: symbolic-link planning with
//! conflict resolution, and template rendering against a context that is
//! partly derived from a wallpaper's colour palette.
//!
//! The library decides and computes; it never touches the file system,
//! the environment or a process. A caller reads what is asked for, hands
//! it over as plain values, and carries out what comes back:
//!
//! - `cli` reads the command line into an operation;
//! - `manifest` holds the configuration, and `plan` turns it and an
//!   operation into the steps to take;
//! - `paths` and `glob` resolve the paths of the manifest;
//! - `symlink` decides what to do at one destination, `walk` mirrors a
//!   source tree with links, and `mirror` says what a whole walk amounts
//!   to;
//! - `colors` and `palette` derive the palette of a wallpaper, `builder`
//!   assembles the template context from it, and `context` is that
//!   context;
//! - `template` renders, with `engine` as its way to the template
//!   engine;
//! - `hooks` reads hook commands, `error` is the error of them all, and
//!   `text` holds helpers on strings.

pub mod builder;
pub mod cli;
pub mod colors;
pub mod context;
pub mod engine;
pub mod error;
pub mod glob;
pub mod hooks;
pub mod manifest;
pub mod mirror;
pub mod palette;
pub mod paths;
pub mod plan;
pub mod symlink;
pub mod template;
pub mod text;
pub mod walk;
