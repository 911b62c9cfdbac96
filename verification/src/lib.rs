//! A generic, reusable MCP (Model Context Protocol) server core for local-first personal-data
//! apps: contacts and company CRMs, or anything else shaped roughly like one.
//!
//! The crate knows nothing of any app's schema or storage. It reads the parameters of each tool
//! from JSON (`params`), says which call of the backend a tool comes down to (`server`,
//! `backend`), and turns the backend's reply into what the caller of the tool gets (`reply`).
//! Making the call, and talking to the client, is for whoever runs the server.
//!
//! What holds for every input is stated and proved beside them: of the library as a whole (`laws`),
//! of the parameters in terms of what was sent (`param_laws`, `reading_laws`), of the calls in terms
//! of the parameters (`call_laws`), of what the caller is told in terms of the backend's reply
//! (`reply_laws`), and of values and texts (`value_laws`, `text_laws`).

pub mod backend;
pub mod call_laws;
pub mod error;
pub mod flexible;
pub mod json;
pub mod laws;
pub mod param_laws;
pub mod params;
pub mod reading_laws;
pub mod record;
pub mod render;
pub mod reply;
pub mod reply_laws;
pub mod server;
pub mod shape;
pub mod text;
pub mod text_laws;
pub mod value_laws;

pub use params::{
    CompanyFieldUpdates, CompanyFieldsWriteResult, ContactFieldUpdates, ContactFieldsWriteResult,
};
pub use server::McpServer;
