//! The state and the decisions of a language server that shows ownership and
//! lifetimes in Rust sources.
//!
//! The server runs `cargo check` with a compiler that reports what it finds,
//! collects the reports, and answers what is to be shown at the cursor. This
//! crate holds what the server knows ([`backend::Backend`]) and what each event
//! makes of it; reading and writing, and the processes themselves, are up to
//! the program around it.

pub mod backend;
pub mod command;
pub mod command_laws;
pub mod cursor_laws;
pub mod decoration;
pub mod fold;
pub mod laws;
pub mod metadata;
pub mod models;
pub mod path;
pub mod path_laws;
pub mod progress;
pub mod report_laws;
pub mod root_laws;
pub mod roots;
pub mod uri;
