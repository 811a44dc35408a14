//! Session orchestration for a chat service that admits holders of a
//! short-lived bearer token, obtained by disclosing attributes to an
//! attribute-based credential server.
//!
//! The crate holds the decisions of the two endpoints and the wire formats
//! they speak. Sockets, HTTP and the task runtime are the caller's: it hands
//! in what arrived and carries out what comes back.

pub mod auth_socket;
pub mod chat_socket;
pub mod clock;
pub mod errors;
pub mod irma;
pub mod irma_session;
pub mod json;
pub mod jwt;
pub mod session_jwt;
pub mod socket_request;
pub mod socket_response;
pub mod text;
