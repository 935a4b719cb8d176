//! The Session Initiation Protocol: messages, dialogs, transactions, session
//! descriptions and digest authentication.
pub mod header;
pub mod message;
pub mod roundtrip;
pub mod md5;
pub mod auth;
pub mod dialog;
pub mod transaction;
pub mod transport;
pub mod sdp;
pub mod sdp_roundtrip;
pub mod laws;
pub mod message_laws;
pub mod operation_laws;
