//! Why the server does not start, or does not run to its end.

use crate::address::{authority, authority_text, law_address_is_loopback_and_port, MCP_PATH};
use crate::text::decimal;
use crate::token::{refusal_text, TokenError};
use vstd::prelude::*;
use vstd::string::StringExecFns;

verus! {

/// What keeps the server from running.
pub enum StartupError {
    /// The runtime could not be started, for the reason given.
    Runtime(String),
    /// The workspace could not be bound, in the words given.
    Workspace(String),
    /// The token file was refused.
    Token(TokenError),
    /// The port could not be bound. There is no other port to fall back on.
    Bind(u16, String),
    /// The server failed while it ran.
    Serve(String),
}

/// What is said of a server that does not run.
pub open spec fn startup_text(error: StartupError) -> Seq<char> {
    match error {
        StartupError::Runtime(reason) => "cannot start HTTP runtime: "@ + reason@,
        StartupError::Workspace(reason) => reason@,
        StartupError::Token(refusal) => refusal_text(refusal),
        StartupError::Bind(port, reason) => "cannot bind http://"@ + authority(port) + MCP_PATH@
            + ": "@ + reason@,
        StartupError::Serve(reason) => "HTTP MCP server failed: "@ + reason@,
    }
}

impl StartupError {
    /// What is said of a server that does not run.
    pub fn message(&self) -> (message: String)
        ensures
            message@ == startup_text(*self),
    {
        match self {
            StartupError::Runtime(reason) => {
                let mut message = String::from_str("cannot start HTTP runtime: ");
                message.append(reason.as_str());
                message
            },
            StartupError::Workspace(reason) => reason.clone(),
            StartupError::Token(refusal) => refusal.message(),
            StartupError::Bind(port, reason) => {
                let mut message = String::from_str("cannot bind http://");
                let address = authority_text(*port);
                message.append(address.as_str());
                message.append(MCP_PATH);
                message.append(": ");
                message.append(reason.as_str());
                message
            },
            StartupError::Serve(reason) => {
                let mut message = String::from_str("HTTP MCP server failed: ");
                message.append(reason.as_str());
                message
            },
        }
    }
}

/// Each failure is told with its reason, whatever that is: the runtime's, the workspace's and the
/// server's in their own words, the token file's as the refusal says it, and the port's with the
/// address that could not be bound.
pub proof fn law_failures_are_told_with_their_reasons(
    reason: String,
    refusal: TokenError,
    port: u16,
)
    ensures
        startup_text(StartupError::Runtime(reason)) == "cannot start HTTP runtime: "@ + reason@,
        startup_text(StartupError::Workspace(reason)) == reason@,
        startup_text(StartupError::Token(refusal)) == refusal_text(refusal),
        startup_text(StartupError::Bind(port, reason)) == "cannot bind http://127.0.0.1:"@
            + decimal(port as nat) + "/mcp: "@ + reason@,
        startup_text(StartupError::Serve(reason)) == "HTTP MCP server failed: "@ + reason@,
{
    reveal_strlit("cannot bind http://");
    reveal_strlit("127.0.0.1:");
    reveal_strlit("cannot bind http://127.0.0.1:");
    reveal_strlit("/mcp");
    reveal_strlit(": ");
    reveal_strlit("/mcp: ");
    law_address_is_loopback_and_port(port);
    assert("cannot bind http://"@ + "127.0.0.1:"@ =~= "cannot bind http://127.0.0.1:"@);
    assert("/mcp"@ + ": "@ =~= "/mcp: "@);
    assert(startup_text(StartupError::Bind(port, reason)) =~= "cannot bind http://127.0.0.1:"@
        + decimal(port as nat) + "/mcp: "@ + reason@);
}

} // verus!
