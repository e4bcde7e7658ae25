//! Verified core of the gvac SSH / HTTP desktop client: request preparation,
//! response interpretation, session and terminal bookkeeping, and the
//! decisions of the terminal worker.
pub mod text;
pub mod errors;
pub mod registry;
pub mod json;
pub mod headers;
pub mod method;
pub mod api;
pub mod http;
pub mod session;
pub mod terminal;
pub mod sftp;
pub mod diagnostics;
