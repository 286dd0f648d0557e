//! The error taxonomy of the harness.
//!
//! Construction errors arise while building a message, transport errors
//! while moving one, and protocol errors when a peer's reply does not have
//! the promised shape.  A handler-reported failure is not an error of this
//! kind: it travels inside a response as an error object.

use vstd::prelude::*;

verus! {

/// Model of a harness error: the tier it belongs to and its text.
pub enum McpErrorModel {
    Construction(Seq<char>),
    Transport(Seq<char>),
    Protocol(Seq<char>),
}

/// An error surfaced by the mock client or the test harness.
#[derive(Debug)]
pub enum McpError {
    /// A message could not be built from its parts.
    Construction(String),
    /// The transport could not carry a message, or carried the wrong kind.
    Transport(String),
    /// A reply did not have the shape the protocol promises.
    Protocol(String),
}

impl View for McpError {
    type V = McpErrorModel;

    open spec fn view(&self) -> McpErrorModel {
        match self {
            McpError::Construction(s) => McpErrorModel::Construction(s@),
            McpError::Transport(s) => McpErrorModel::Transport(s@),
            McpError::Protocol(s) => McpErrorModel::Protocol(s@),
        }
    }
}

impl McpError {
    /// A protocol error with the given text.
    pub fn protocol(message: &str) -> (r: McpError)
        ensures
            r@ == McpErrorModel::Protocol(message@),
    {
        McpError::Protocol(String::from_str(message))
    }

    /// A transport error with the given text.
    pub fn transport(message: &str) -> (r: McpError)
        ensures
            r@ == McpErrorModel::Transport(message@),
    {
        McpError::Transport(String::from_str(message))
    }

    /// The text carried by this error.
    pub fn message(&self) -> (r: &String)
        ensures
            self@ == McpErrorModel::Construction(r@) || self@ == McpErrorModel::Transport(r@)
                || self@ == McpErrorModel::Protocol(r@),
    {
        match self {
            McpError::Construction(s) => s,
            McpError::Transport(s) => s,
            McpError::Protocol(s) => s,
        }
    }

    /// Whether this is a protocol-tier error.
    pub fn is_protocol(&self) -> (r: bool)
        ensures
            r == (self@ is Protocol),
    {
        match self {
            McpError::Protocol(_) => true,
            _ => false,
        }
    }
}

/// The result type of every fallible harness operation.
pub type McpResult<T> = Result<T, McpError>;

} // verus!
