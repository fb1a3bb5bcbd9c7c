//! The Vortex proxy: what its failures mean and how its handshake is read.
use vstd::prelude::*;

use crate::error::AppError;
use crate::text::{self, ascii_lowercase_seq, contains_seq};

verus! {

/// The message of the proxy's 2FA demand.
pub const PROXY_TWO_FA_MESSAGE: &'static str =
    "Proxy and telemetry require 2FA. Enable TOTP in the Vortex cabinet — GUI will not bypass it.";

/// A proxy failure that means 2FA is required (close code 1008 or a mention
/// of 2FA, TOTP or two-factor, in any ASCII case).
pub open spec fn ws_needs_2fa(msg: Seq<char>) -> bool {
    let l = ascii_lowercase_seq(msg);
    ||| contains_seq(l, "1008"@)
    ||| contains_seq(l, "2fa"@)
    ||| contains_seq(l, "totp"@)
    ||| contains_seq(l, "two-factor"@)
    ||| contains_seq(l, "two factor"@)
}

/// A proxy failure that means the host's agent is offline (close code 1013).
pub open spec fn ws_agent_offline(msg: Seq<char>) -> bool {
    let l = ascii_lowercase_seq(msg);
    contains_seq(l, "1013"@) || contains_seq(l, "offline"@)
}

/// What a proxy failure means to the user.
pub fn map_ws_err(msg: &str, web_url: &str) -> (e: AppError)
    ensures
        ws_needs_2fa(msg@) ==> e.is_two_fa_for(PROXY_TWO_FA_MESSAGE@, web_url@),
        !ws_needs_2fa(msg@) && ws_agent_offline(msg@) ==> e is Msg && e.message_seq() == "agent offline"@,
        !ws_needs_2fa(msg@) && !ws_agent_offline(msg@) ==> e is Msg && e.message_seq() == "proxy: "@ + msg@,
{
    if text::contains_lowered(msg, "1008") || text::contains_lowered(msg, "2fa") || text::contains_lowered(
        msg,
        "totp",
    ) || text::contains_lowered(msg, "two-factor") || text::contains_lowered(msg, "two factor") {
        return AppError::two_fa(PROXY_TWO_FA_MESSAGE, web_url);
    }
    if text::contains_lowered(msg, "1013") || text::contains_lowered(msg, "offline") {
        return AppError::msg("agent offline");
    }
    let mut m = String::from_str("proxy: ");
    m.append(msg);
    AppError::Msg(m)
}

/// The first message of the proxy, as far as the handshake reads it.
#[derive(Debug)]
pub enum ProxyGreeting {
    /// A text (or binary, read as text) message, with the `type` field its
    /// JSON carries (`None` when it is not a proxy message).
    Text { text: String, kind: Option<String> },
    /// The proxy closed, with this reason.
    Close(String),
    /// Any other frame, by its debug rendering.
    Other(String),
}

/// The handshake's verdict on the proxy's first message: `proxy_ready` opens
/// the tunnel; a proxy error or a close is mapped; anything else is refused.
pub fn read_greeting(greeting: &ProxyGreeting, web_url: &str) -> (r: Result<(), AppError>)
    ensures
        match greeting {
            ProxyGreeting::Text { text, kind: Some(k) } => if k@ == "proxy_ready"@ {
                r is Ok
            } else if k@ == "proxy_error"@ || k@ == "error"@ {
                r matches Err(e) && (ws_needs_2fa(text@) ==> e.is_two_fa_for(PROXY_TWO_FA_MESSAGE@, web_url@))
                    && (!ws_needs_2fa(text@) && ws_agent_offline(text@) ==> e is Msg && e.message_seq() == "agent offline"@)
                    && (!ws_needs_2fa(text@) && !ws_agent_offline(text@) ==> e is Msg && e.message_seq() == "proxy: "@ + text@)
            } else {
                r matches Err(e) && e is Msg && e.message_seq() == "expected proxy_ready, got "@ + text@
            },
            ProxyGreeting::Text { text, kind: None } => r matches Err(e) && e is Msg && e.message_seq()
                == "expected proxy_ready, got "@ + text@,
            ProxyGreeting::Close(reason) => r matches Err(e) && (ws_needs_2fa(reason@) ==> e.is_two_fa_for(PROXY_TWO_FA_MESSAGE@, web_url@))
                && (!ws_needs_2fa(reason@) && ws_agent_offline(reason@) ==> e is Msg && e.message_seq() == "agent offline"@)
                && (!ws_needs_2fa(reason@) && !ws_agent_offline(reason@) ==> e is Msg && e.message_seq() == "proxy: "@ + reason@),
            ProxyGreeting::Other(frame) => r matches Err(e) && e is Msg && e.message_seq()
                == "expected proxy_ready, got "@ + frame@,
        },
{
    match greeting {
        ProxyGreeting::Text { text, kind } => {
            if let Some(k) = kind {
                if text::str_eq(k.as_str(), "proxy_ready") {
                    return Ok(());
                }
                if text::str_eq(k.as_str(), "proxy_error") || text::str_eq(k.as_str(), "error") {
                    return Err(map_ws_err(text.as_str(), web_url));
                }
            }
            let mut m = String::from_str("expected proxy_ready, got ");
            m.append(text.as_str());
            Err(AppError::Msg(m))
        },
        ProxyGreeting::Close(reason) => Err(map_ws_err(reason.as_str(), web_url)),
        ProxyGreeting::Other(frame) => {
            let mut m = String::from_str("expected proxy_ready, got ");
            m.append(frame.as_str());
            Err(AppError::Msg(m))
        },
    }
}

/// Whether a text message on an open tunnel ends it: a proxy message of type
/// `proxy_error` or `error`.
pub fn ends_tunnel(kind: Option<&str>) -> (b: bool)
    ensures
        b == match kind {
            Some(k) => k@ == "proxy_error"@ || k@ == "error"@,
            None => false,
        },
{
    match kind {
        Some(k) => text::str_eq(k, "proxy_error") || text::str_eq(k, "error"),
        None => false,
    }
}

} // verus!
