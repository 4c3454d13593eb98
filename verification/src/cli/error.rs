//! What can go wrong for the client, and what its process ends with.

use vstd::prelude::*;
use crate::cli::rpc_client::RpcClientError;

verus! {

#[derive(Debug)]
pub enum CliError {
    Usage(String),
    Lifecycle(String),
    RpcTransport(String),
    Smoke(String),
}

impl CliError {
    /// What is said of the error.
    pub open spec fn said(self) -> Seq<char> {
        match self {
            CliError::Usage(s) => s@,
            CliError::Lifecycle(s) => s@,
            CliError::RpcTransport(s) => s@,
            CliError::Smoke(s) => s@,
        }
    }

    /// What is said of the error.
    pub fn to_text(&self) -> (r: String)
        ensures
            r@ == self.said(),
    {
        match self {
            CliError::Usage(s) => s.clone(),
            CliError::Lifecycle(s) => s.clone(),
            CliError::RpcTransport(s) => s.clone(),
            CliError::Smoke(s) => s.clone(),
        }
    }

    /// What the process ends with.
    pub open spec fn code(self) -> int {
        match self {
            CliError::Usage(_) => 2,
            CliError::Lifecycle(_) => 3,
            CliError::RpcTransport(_) => 4,
            CliError::Smoke(_) => 5,
        }
    }

    /// What the process ends with.
    pub fn exit_code(&self) -> (r: i32)
        ensures
            r == self.code(),
    {
        match self {
            CliError::Usage(_) => 2,
            CliError::Lifecycle(_) => 3,
            CliError::RpcTransport(_) => 4,
            CliError::Smoke(_) => 5,
        }
    }

    /// The error that a failed call of the daemon comes to.
    pub fn from_rpc(value: RpcClientError) -> (r: CliError)
        ensures
            r == (match value {
                RpcClientError::InvalidRequest(message) => CliError::Usage(message),
                RpcClientError::Transport(message) => CliError::RpcTransport(message),
                RpcClientError::InvalidResponse(message) => CliError::RpcTransport(message),
                RpcClientError::Rpc(_, message) => CliError::RpcTransport(message),
            }),
    {
        match value {
            RpcClientError::InvalidRequest(message) => CliError::Usage(message),
            RpcClientError::Transport(message) => CliError::RpcTransport(message),
            RpcClientError::InvalidResponse(message) => CliError::RpcTransport(message),
            RpcClientError::Rpc(_, message) => CliError::RpcTransport(message),
        }
    }
}

/// Errors of different kinds end the process with different numbers, and none with zero.
pub proof fn exit_codes_tell_errors_apart(a: CliError, b: CliError)
    ensures
        a.code() != 0,
        a.code() == b.code() ==> {
            &&& a is Usage <==> b is Usage
            &&& a is Lifecycle <==> b is Lifecycle
            &&& a is RpcTransport <==> b is RpcTransport
            &&& a is Smoke <==> b is Smoke
        },
{
}

/// An error says its words as they are, and ends the program with its own code.
pub proof fn errors_end_the_program(s: String)
    ensures
        CliError::Usage(s).said() == s@,
        CliError::Lifecycle(s).said() == s@,
        CliError::RpcTransport(s).said() == s@,
        CliError::Smoke(s).said() == s@,
        CliError::Usage(s).code() == 2,
        CliError::Lifecycle(s).code() == 3,
        CliError::RpcTransport(s).code() == 4,
        CliError::Smoke(s).code() == 5,
{
}

} // verus!
