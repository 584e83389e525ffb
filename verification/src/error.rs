//! The error taxonomy of the library.

use vstd::prelude::*;

verus! {

/// Every way an operation of the library can fail. Errors that an outside
/// library raised (I/O, HTTP transport, JSON syntax) carry that library's
/// message.
#[derive(Debug)]
pub enum NotebookLmError {
    Io(String),
    Http(String),
    Json(String),
    Auth(String),
    RateLimit { message: String, retry_after: Option<u64> },
    Client { status: u16, message: String },
    Server { status: u16, message: String },
    Config(String),
    Network { operation: String, message: String },
    Timeout { operation: String, message: String },
    StaleAuth(String),
    Rpc { method_id: String, message: String, code: Option<i64> },
    RpcDecode(String),
    DecodeShape { path: String, context: String },
}

/// The mathematical view of an error: its variant and its texts.
pub enum SError {
    Io(Seq<char>),
    Http(Seq<char>),
    Json(Seq<char>),
    Auth(Seq<char>),
    RateLimit { message: Seq<char>, retry_after: Option<u64> },
    Client { status: u16, message: Seq<char> },
    Server { status: u16, message: Seq<char> },
    Config(Seq<char>),
    Network { operation: Seq<char>, message: Seq<char> },
    Timeout { operation: Seq<char>, message: Seq<char> },
    StaleAuth(Seq<char>),
    Rpc { method_id: Seq<char>, message: Seq<char>, code: Option<i64> },
    RpcDecode(Seq<char>),
    DecodeShape { path: Seq<char>, context: Seq<char> },
}

impl View for NotebookLmError {
    type V = SError;

    open spec fn view(&self) -> SError {
        match self {
            NotebookLmError::Io(m) => SError::Io(m@),
            NotebookLmError::Http(m) => SError::Http(m@),
            NotebookLmError::Json(m) => SError::Json(m@),
            NotebookLmError::Auth(m) => SError::Auth(m@),
            NotebookLmError::RateLimit { message, retry_after } => SError::RateLimit {
                message: message@,
                retry_after: *retry_after,
            },
            NotebookLmError::Client { status, message } => SError::Client {
                status: *status,
                message: message@,
            },
            NotebookLmError::Server { status, message } => SError::Server {
                status: *status,
                message: message@,
            },
            NotebookLmError::Config(m) => SError::Config(m@),
            NotebookLmError::Network { operation, message } => SError::Network {
                operation: operation@,
                message: message@,
            },
            NotebookLmError::Timeout { operation, message } => SError::Timeout {
                operation: operation@,
                message: message@,
            },
            NotebookLmError::StaleAuth(m) => SError::StaleAuth(m@),
            NotebookLmError::Rpc { method_id, message, code } => SError::Rpc {
                method_id: method_id@,
                message: message@,
                code: *code,
            },
            NotebookLmError::RpcDecode(m) => SError::RpcDecode(m@),
            NotebookLmError::DecodeShape { path, context } => SError::DecodeShape {
                path: path@,
                context: context@,
            },
        }
    }
}

/// The library's `Result`.
pub type Result<T> = core::result::Result<T, NotebookLmError>;

} // verus!
