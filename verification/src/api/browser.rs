//! Signing in through the browser: the login link, the one-time state, and
//! what the loopback callback request means.
use vstd::prelude::*;

use crate::api::urls::{
    self, spec_url_append_pair, spec_url_clear_fragment, spec_url_clear_query, spec_url_parse,
    spec_url_query_pairs, spec_url_set_path,
};
use crate::api::client::{spec_utf8_lossy, utf8_lossy};
use crate::crypto::random_bytes;
use crate::error::AppError;
use crate::text::{self, first_line_seq, words_seq};

verus! {

/// The refusal of a sign-in without a Web URL.
pub const EMPTY_WEB_URL: &'static str = "web URL is empty \u{2014} set Vortex Web URL in settings";

/// The Web URL that a sign-in opens: trimmed, without trailing slashes.
pub open spec fn login_web_base_seq(web_url: Seq<char>) -> Seq<char> {
    text::strip_end_seq(text::trim_seq(web_url), '/')
}

/// The Web URL that a sign-in opens, or the refusal when nothing is left of it.
pub fn login_web_base(web_url: &str) -> (r: Result<String, AppError>)
    ensures
        login_web_base_seq(web_url@).len() == 0 ==> (r matches Err(e) && e is Msg && e.message_seq()
            == EMPTY_WEB_URL@),
        login_web_base_seq(web_url@).len() > 0 ==> (r matches Ok(u) && u@ == login_web_base_seq(web_url@)),
{
    let base = text::trim_end_char(text::trim(web_url), '/');
    if base.unicode_len() == 0 {
        return Err(AppError::msg(EMPTY_WEB_URL));
    }
    Ok(String::from_str(base))
}

/// The loopback address that the browser returns to.
pub open spec fn callback_uri_seq(port: u16) -> Seq<char> {
    "http://127.0.0.1:"@ + text::decimal_seq(port as nat) + "/callback"@
}

/// The loopback address that the browser returns to, on the listener's port.
pub fn callback_uri(port: u16) -> (r: String)
    ensures
        r@ == callback_uri_seq(port),
{
    let mut r = String::from_str("http://127.0.0.1:");
    let p = text::u64_to_decimal(port as u64);
    r.append(p.as_str());
    r.append("/callback");
    r
}

/// The credential that the browser handed back.
#[derive(Debug)]
pub struct BrowserAuthResult {
    pub token: String,
    pub email: String,
}

/// The login link of Vortex Web: `{web}/login` with only the device-link
/// query (`client`, `redirect_uri`, `state`), no fragment.
pub open spec fn login_url_spec(web_url: Seq<char>, redirect_uri: Seq<char>, state: Seq<char>) -> Result<Seq<char>, Seq<char>> {
    match spec_url_parse(web_url) {
        Err(m) => Err(m),
        Ok(u) => Ok(
            spec_url_append_pair(
                spec_url_append_pair(
                    spec_url_append_pair(
                        spec_url_clear_fragment(spec_url_clear_query(spec_url_set_path(u, "/login"@))),
                        "client"@,
                        "vortex-tui"@,
                    ),
                    "redirect_uri"@,
                    redirect_uri,
                ),
                "state"@,
                state,
            ),
        ),
    }
}

/// The login link of Vortex Web; an unparsable web URL fails with the
/// parser's message.
pub fn build_login_url(web_url: &str, redirect_uri: &str, state: &str) -> (r: Result<String, AppError>)
    ensures
        match login_url_spec(web_url@, redirect_uri@, state@) {
            Ok(u) => r matches Ok(s) && s@ == u,
            Err(m) => r matches Err(e) && e is Msg && e.message_seq() == m,
        },
{
    let u = match urls::url_parse(web_url) {
        Ok(u) => u,
        Err(m) => {
            return Err(AppError::Msg(m));
        },
    };
    let u = urls::url_set_path(u.as_str(), "/login");
    let u = urls::url_clear_query(u.as_str());
    let u = urls::url_clear_fragment(u.as_str());
    let u = urls::url_append_pair(u.as_str(), "client", "vortex-tui");
    let u = urls::url_append_pair(u.as_str(), "redirect_uri", redirect_uri);
    let u = urls::url_append_pair(u.as_str(), "state", state);
    Ok(u)
}

/// Lower-case hexadecimal digit.
pub open spec fn hex_digit(d: u8) -> char {
    "0123456789abcdef"@[d as int]
}

/// Lower-case hexadecimal text of bytes, two digits each.
pub open spec fn hex_lower(bytes: Seq<u8>) -> Seq<char>
    decreases bytes.len(),
{
    if bytes.len() == 0 {
        Seq::empty()
    } else {
        hex_lower(bytes.drop_last()) + seq![hex_digit(bytes.last() / 16), hex_digit(bytes.last() % 16)]
    }
}

/// `hex::encode`. Claims: two lower-case hexadecimal digits per byte, in order.
#[verifier::external_body]
fn hex_encode(bytes: &[u8]) -> (r: String)
    ensures
        r@ == hex_lower(bytes@),
{
    hex::encode(bytes)
}

/// A fresh state for one sign-in: `n` random bytes in lower-case hex.
pub fn random_state(n: usize) -> (r: Result<String, AppError>)
    ensures
        r matches Ok(s) && exists|b: Seq<u8>| b.len() == n && s@ == hex_lower(b),
{
    let b = random_bytes(n);
    let s = hex_encode(b.as_slice());
    Ok(s)
}

/// The plain-text `400 Bad Request` reply to a bad callback.
pub open spec fn http_error_page_seq(msg: Seq<char>) -> Seq<char> {
    "HTTP/1.1 400 Bad Request\r\nContent-Type: text/plain\r\nConnection: close\r\n\r\n"@ + msg
}

/// The plain-text `400 Bad Request` reply to a bad callback.
pub fn http_error_page(msg: &str) -> (r: String)
    ensures
        r@ == http_error_page_seq(msg@),
{
    let mut r = String::from_str(
        "HTTP/1.1 400 Bad Request\r\nContent-Type: text/plain\r\nConnection: close\r\n\r\n",
    );
    r.append(msg);
    r
}

/// The value of the last pair with this key.
pub open spec fn last_value(pairs: Seq<(Seq<char>, Seq<char>)>, key: Seq<char>) -> Option<Seq<char>>
    decreases pairs.len(),
{
    if pairs.len() == 0 {
        None
    } else if pairs.last().0 == key {
        Some(pairs.last().1)
    } else {
        last_value(pairs.drop_last(), key)
    }
}

/// Why a callback request was refused.
#[derive(Debug, Clone, Copy, PartialEq, Eq, Structural)]
pub enum CallbackError {
    /// The request target is not a URL path.
    InvalidRequest,
    /// The state does not match the one sent.
    InvalidState,
    /// No token (or an empty one) came back.
    MissingToken,
}

impl CallbackError {
    /// The message of the sign-in error.
    pub open spec fn message_seq(self) -> Seq<char> {
        match self {
            CallbackError::InvalidRequest => "invalid callback request"@,
            CallbackError::InvalidState => "invalid OAuth state"@,
            CallbackError::MissingToken => "callback missing token"@,
        }
    }

    /// The sign-in error.
    pub fn error(self) -> (e: AppError)
        ensures
            e is Msg,
            e.message_seq() == self.message_seq(),
    {
        match self {
            CallbackError::InvalidRequest => AppError::msg("invalid callback request"),
            CallbackError::InvalidState => AppError::msg("invalid OAuth state"),
            CallbackError::MissingToken => AppError::msg("callback missing token"),
        }
    }

    /// The text of the `400` page answered to the browser, if one is answered.
    pub fn page_message(self) -> (m: Option<&'static str>)
        ensures
            match self {
                CallbackError::InvalidRequest => m is None,
                CallbackError::InvalidState => m matches Some(t) && t@ == "invalid state"@,
                CallbackError::MissingToken => m matches Some(t) && t@ == "missing token"@,
            },
    {
        match self {
            CallbackError::InvalidRequest => None,
            CallbackError::InvalidState => Some("invalid state"),
            CallbackError::MissingToken => Some("missing token"),
        }
    }
}

/// The target of an HTTP request line: its second word, `/` when missing.
pub open spec fn request_target(request: Seq<char>) -> Seq<char> {
    let words = words_seq(first_line_seq(request));
    if words.len() > 1 {
        words[1]
    } else {
        "/"@
    }
}

/// What a callback request means, given the state that was sent: the last
/// `state`, `token` and `email` of its query decide.
pub open spec fn callback_spec(request: Seq<char>, state: Seq<char>) -> Result<(Seq<char>, Seq<char>), CallbackError> {
    match spec_url_parse("http://127.0.0.1"@ + request_target(request)) {
        Err(_) => Err(CallbackError::InvalidRequest),
        Ok(u) => {
            let pairs = spec_url_query_pairs(u);
            if last_value(pairs, "state"@) != Some(state) {
                Err(CallbackError::InvalidState)
            } else {
                match last_value(pairs, "token"@) {
                    Some(t) => if t.len() > 0 {
                        Ok(
                            (
                                t,
                                match last_value(pairs, "email"@) {
                                    Some(e) => e,
                                    None => Seq::empty(),
                                },
                            ),
                        )
                    } else {
                        Err(CallbackError::MissingToken)
                    },
                    None => Err(CallbackError::MissingToken),
                }
            }
        },
    }
}

/// The value of the last pair with this key.
fn find_last(pairs: &Vec<(String, String)>, key: &str) -> (r: Option<String>)
    ensures
        crate::api::json::opt_view(r) == last_value(urls::pair_views(pairs@), key@),
{
    let ghost pv = urls::pair_views(pairs@);
    let mut found: Option<String> = None;
    let mut i: usize = 0;
    while i < pairs.len()
        invariant
            i <= pairs@.len(),
            pv == urls::pair_views(pairs@),
            crate::api::json::opt_view(found) == last_value(pv.subrange(0, i as int), key@),
        decreases pairs@.len() - i,
    {
        proof {
            assert(pv.subrange(0, i + 1).drop_last() =~= pv.subrange(0, i as int));
            assert(pv.subrange(0, i + 1).last() == (pairs@[i as int].0@, pairs@[i as int].1@));
        }
        if text::str_eq(pairs[i].0.as_str(), key) {
            found = Some(pairs[i].1.clone());
        }
        i = i + 1;
    }
    proof {
        assert(pv.subrange(0, pairs@.len() as int) =~= pv);
    }
    found
}

/// What a callback request on the loopback listener means, given the state
/// that was sent.
pub fn read_callback(request: &[u8], state: &str) -> (r: Result<BrowserAuthResult, CallbackError>)
    ensures
        match callback_spec(spec_utf8_lossy(request@), state@) {
            Ok((t, e)) => r matches Ok(a) && a.token@ == t && a.email@ == e,
            Err(c) => r == Err::<BrowserAuthResult, CallbackError>(c),
        },
{
    let text = utf8_lossy(request);
    let line = text::first_line(text.as_str());
    let words = text::split_whitespace(line);
    proof {
        assert(text::views(words@).len() == words@.len());
    }
    let mut target = String::from_str("http://127.0.0.1");
    if words.len() > 1 {
        proof {
            assert(text::views(words@)[1] == words@[1]@);
        }
        target.append(words[1].as_str());
    } else {
        target.append("/");
    }
    let u = match urls::url_parse(target.as_str()) {
        Ok(u) => u,
        Err(_) => {
            return Err(CallbackError::InvalidRequest);
        },
    };
    let pairs = urls::url_query_pairs(u.as_str());
    let q_state = find_last(&pairs, "state");
    match q_state {
        Some(s) => {
            if !text::str_eq(s.as_str(), state) {
                return Err(CallbackError::InvalidState);
            }
        },
        None => {
            return Err(CallbackError::InvalidState);
        },
    }
    let token = match find_last(&pairs, "token") {
        Some(t) => t,
        None => {
            return Err(CallbackError::MissingToken);
        },
    };
    if token.as_str().unicode_len() == 0 {
        return Err(CallbackError::MissingToken);
    }
    let email = match find_last(&pairs, "email") {
        Some(e) => e,
        None => String::new(),
    };
    Ok(BrowserAuthResult { token, email })
}

} // verus!
