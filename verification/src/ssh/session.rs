//! Terminal sessions: where a connection dials, the terminal size it asks
//! for, and what the UI is told when it ends.
use vstd::prelude::*;

use crate::error::AppError;
use crate::models::Host;
use crate::text::{self, trim_seq};

verus! {

/// Where an SSH connection goes.
#[derive(Debug)]
pub enum DialTarget {
    /// Through the Vortex proxy WebSocket at this URL.
    Proxy(String),
    /// Straight to this address and port.
    Direct(String, u16),
}

/// Where an SSH connection to a host goes: the proxy URL in proxy mode,
/// otherwise the trimmed address and the port (22 when unset; the stored
/// port is cut to 16 bits).
pub fn dial_target(host: &Host, proxy: bool, ws_url: Option<&str>) -> (r: Result<DialTarget, AppError>)
    ensures
        proxy ==> match ws_url {
            Some(u) => r matches Ok(DialTarget::Proxy(x)) && x@ == u@,
            None => r matches Err(e) && e is Msg && e.message_seq() == "proxy URL missing"@,
        },
        !proxy && trim_seq(host.address@).len() == 0 ==> (r matches Err(e) && e is Msg && e.message_seq()
            == "host address is empty (direct mode requires IP/hostname)"@),
        !proxy && trim_seq(host.address@).len() > 0 ==> (r matches Ok(DialTarget::Direct(a, p)) && a@
            == trim_seq(host.address@) && p == (if host.port == 0 {
            22u16
        } else {
            host.port as u16
        })),
{
    if proxy {
        return match ws_url {
            Some(u) => Ok(DialTarget::Proxy(String::from_str(u))),
            None => Err(AppError::msg("proxy URL missing")),
        };
    }
    let addr = text::trim(host.address.as_str());
    if addr.unicode_len() == 0 {
        return Err(AppError::msg("host address is empty (direct mode requires IP/hostname)"));
    }
    let port: u16 = if host.port == 0 {
        22
    } else {
        #[verifier::truncate]
        (host.port as u16)
    };
    Ok(DialTarget::Direct(String::from_str(addr), port))
}

/// The terminal size requested for a shell: 80 columns and 24 rows where
/// the UI gave none.
pub fn pty_size(cols: u32, rows: u32) -> (r: (u32, u32))
    ensures
        r.0 == (if cols == 0 {
            80
        } else {
            cols
        }),
        r.1 == (if rows == 0 {
            24
        } else {
            rows
        }),
{
    (if cols == 0 {
        80
    } else {
        cols
    }, if rows == 0 {
        24
    } else {
        rows
    })
}

/// What the UI is told when a session ends: `session closed`, or the error.
pub fn exit_message(result: &Result<(), AppError>) -> (m: String)
    ensures
        match result {
            Ok(()) => m@ == "session closed"@,
            Err(e) => m@ == e.message_seq(),
        },
{
    match result {
        Ok(()) => String::from_str("session closed"),
        Err(e) => e.message(),
    }
}

/// The connection mode as the UI names it.
pub fn mode_name(proxy: bool) -> (r: &'static str)
    ensures
        r@ == (if proxy {
            "proxy"@
        } else {
            "direct"@
        }),
{
    if proxy {
        "proxy"
    } else {
        "direct"
    }
}

} // verus!
