//! The softphone: what it says on the wire and on the terminal.
pub mod call;
pub mod call_laws;
pub mod cli;
pub mod commands;
pub mod config;
pub mod dtmf;
pub mod editor;
pub mod history;
pub mod ladder;
pub mod laws;
pub mod operation_laws;
pub mod request_laws;
pub mod requests;
pub mod sip_debug;
pub mod softphone;
pub mod term;
pub mod terminal_laws;
pub mod trace_laws;
pub mod ui;
pub mod uri;
