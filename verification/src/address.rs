//! Where the server listens: always the loopback address, never a configured host.

use crate::text::{decimal, decimal_text, lemma_decimal_is_ascii};
use vstd::prelude::*;
use vstd::string::StringExecFns;

verus! {

/// The only path that is served.
pub const MCP_PATH: &'static str = "/mcp";

/// The address and port of the server, as a host field names them.
pub open spec fn authority(port: u16) -> Seq<char> {
    "127.0.0.1:"@ + decimal(port as nat)
}

/// The origin of pages that the server itself would serve.
pub open spec fn origin(port: u16) -> Seq<char> {
    "http://"@ + authority(port)
}

/// The address and port of the server, as a host field names them.
pub fn authority_text(port: u16) -> (text: String)
    ensures
        text@ == authority(port),
        text.is_ascii(),
{
    let mut text = String::from_str("127.0.0.1:");
    let digits = decimal_text(port);
    text.append(digits.as_str());
    proof {
        reveal_strlit("127.0.0.1:");
        lemma_decimal_is_ascii(port as nat);
        assert forall|i: int| 0 <= i < text@.len() implies '\0' <= #[trigger] text@[i] <= '\u{7f}' by {
            if i >= "127.0.0.1:"@.len() {
                assert(text@[i] == decimal(port as nat)[i - "127.0.0.1:"@.len()]);
            } else {
                assert(text@[i] == "127.0.0.1:"@[i]);
            }
        }
    }
    text
}

/// The origin of pages that the server itself would serve.
pub fn origin_text(port: u16) -> (text: String)
    ensures
        text@ == origin(port),
        text.is_ascii(),
{
    let mut text = String::from_str("http://");
    let authority_text = authority_text(port);
    text.append(authority_text.as_str());
    proof {
        reveal_strlit("http://");
        assert forall|i: int| 0 <= i < text@.len() implies '\0' <= #[trigger] text@[i] <= '\u{7f}' by {
            if i >= "http://"@.len() {
                assert(text@[i] == authority_text@[i - "http://"@.len()]);
            } else {
                assert(text@[i] == "http://"@[i]);
            }
        }
    }
    text
}

/// The server is named by the loopback address, a colon and its port in decimal, whatever the port;
/// its origin is the same behind the scheme.
pub proof fn law_address_is_loopback_and_port(port: u16)
    ensures
        authority(port) == "127.0.0.1:"@ + decimal(port as nat),
        origin(port) == "http://127.0.0.1:"@ + decimal(port as nat),
{
    reveal_strlit("http://");
    reveal_strlit("127.0.0.1:");
    reveal_strlit("http://127.0.0.1:");
    assert("http://"@ + "127.0.0.1:"@ =~= "http://127.0.0.1:"@);
    assert(origin(port) =~= "http://127.0.0.1:"@ + decimal(port as nat));
}

} // verus!
