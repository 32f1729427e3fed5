//! A dual-protocol socket server library: request classification, the HTTP
//! responder's decisions, the file-transfer framing, the session state machine,
//! the operator command language and the console-owned connection registry.

pub mod codec;
pub mod session;
pub mod text;
pub mod validator;
pub mod response;
pub mod command;
pub mod registry;
pub mod headers;
pub mod sniffer;
pub mod database;
pub mod config;
pub mod helpers;
pub mod coreerr;
pub mod console;
