//! A client for the Chiral computing service: the requests it sends to the
//! service and how it reads the replies, and the plans by which it works on
//! the user's files over FTP. The transport (gRPC and FTP connections) is
//! the caller's; the library decides what to send and what the answers mean.

pub mod text;
pub mod json;
pub mod metadata;
pub mod api;
pub mod session;
pub mod remote_path;
pub mod removal;
pub mod connection;
pub mod ftp;
pub mod file;
pub mod client;

pub use api::{ApiError, Endpoint, PreparedRequest, ServerReply};
pub use client::{Client, ClientError};
