//! Build-orchestration core for compiling two open-source projects from
//! source: version handling, shell-command composition, build planning, the
//! dependency-resolution protocol, and the typed message bus that background
//! tasks use to report to a single observer.

pub mod deps;
pub mod envpath;
pub mod errors;
pub mod logbuf;
pub mod messages;
pub mod numtext;
pub mod observer;
pub mod pipeline;
pub mod process;
pub mod releases;
pub mod shell;
pub mod version;

