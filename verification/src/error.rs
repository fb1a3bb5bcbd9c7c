//! Errors that the client reports to its UI.
use vstd::prelude::*;

use crate::config::DEFAULT_WEB_URL;
use crate::crypto::CryptoError;
use crate::text::{self, strip_end_seq, trim_seq};

verus! {

/// An error: either a coded Core error (optionally pointing at the 2FA page of
/// Vortex Web) or a plain message.
#[derive(Debug)]
pub enum AppError {
    Core { code: String, message: String, web_2fa_url: Option<String> },
    Msg(String),
}

pub type AppResult<T> = Result<T, AppError>;

/// The body the UI receives for an error.
#[derive(Debug)]
pub struct ErrorBody {
    pub code: String,
    pub message: String,
    pub web_2fa_url: Option<String>,
}

/// The code of the error raised when Core or the proxy demands 2FA.
pub open spec fn two_fa_code() -> Seq<char> {
    "2fa_required"@
}

/// Where the 2FA cabinet of Vortex Web lives for a configured web URL.
pub open spec fn two_fa_url_seq(web_url: Seq<char>) -> Seq<char> {
    let trimmed = strip_end_seq(trim_seq(web_url), '/');
    let base = if trimmed.len() == 0 {
        DEFAULT_WEB_URL@
    } else {
        trimmed
    };
    base + "/security/2fa"@
}

impl AppError {
    /// The code the UI sees: the Core code, or `error` for a plain message.
    pub open spec fn code_seq(&self) -> Seq<char> {
        match self {
            AppError::Core { code, .. } => code@,
            AppError::Msg(_) => "error"@,
        }
    }

    /// The human-readable text of the error.
    pub open spec fn message_seq(&self) -> Seq<char> {
        match self {
            AppError::Core { message, .. } => message@,
            AppError::Msg(m) => m@,
        }
    }

    /// The 2FA page link, for a Core error that carries one.
    pub open spec fn web_2fa_url_seq(&self) -> Option<Seq<char>> {
        match self {
            AppError::Core { web_2fa_url: Some(u), .. } => Some(u@),
            _ => None,
        }
    }

    /// This error asks for 2FA and links to the cabinet of `web_url`.
    pub open spec fn is_two_fa_for(&self, message: Seq<char>, web_url: Seq<char>) -> bool {
        &&& self is Core
        &&& self.code_seq() == two_fa_code()
        &&& self.message_seq() == message
        &&& self.web_2fa_url_seq() == Some(two_fa_url_seq(web_url))
    }

    /// A plain-message error.
    pub fn msg(m: &str) -> (e: Self)
        ensures
            e is Msg,
            e.message_seq() == m@,
    {
        AppError::Msg(String::from_str(m))
    }

    /// A coded Core error without a 2FA link.
    pub fn core_error(code: &str, message: &str) -> (e: Self)
        ensures
            e is Core,
            e.code_seq() == code@,
            e.message_seq() == message@,
            e.web_2fa_url_seq() is None,
    {
        AppError::Core {
            code: String::from_str(code),
            message: String::from_str(message),
            web_2fa_url: None,
        }
    }

    /// The 2FA-required error, linking to `{web}/security/2fa` (the stock Web URL
    /// when `web_url` is blank).
    pub fn two_fa(message: &str, web_url: &str) -> (e: Self)
        ensures
            e.is_two_fa_for(message@, web_url@),
    {
        let trimmed = text::trim_end_char(text::trim(web_url), '/');
        let mut url = if trimmed.unicode_len() == 0 {
            String::from_str(DEFAULT_WEB_URL)
        } else {
            String::from_str(trimmed)
        };
        url.append("/security/2fa");
        AppError::Core {
            code: String::from_str("2fa_required"),
            message: String::from_str(message),
            web_2fa_url: Some(url),
        }
    }

    pub fn code(&self) -> (c: &str)
        ensures
            c@ == self.code_seq(),
    {
        match self {
            AppError::Core { code, .. } => code.as_str(),
            AppError::Msg(_) => "error",
        }
    }

    pub fn web_2fa_url(&self) -> (u: Option<&str>)
        ensures
            u matches Some(s) ==> self.web_2fa_url_seq() == Some(s@),
            u is None ==> self.web_2fa_url_seq() is None,
    {
        match self {
            AppError::Core { web_2fa_url: Some(u), .. } => Some(u.as_str()),
            _ => None,
        }
    }

    /// The text of the error (what `Display` shows).
    pub fn message(&self) -> (m: String)
        ensures
            m@ == self.message_seq(),
    {
        match self {
            AppError::Core { message, .. } => message.clone(),
            AppError::Msg(m) => m.clone(),
        }
    }

    /// The body the UI receives: code, message and the optional 2FA link.
    pub fn body(&self) -> (b: ErrorBody)
        ensures
            b.code@ == self.code_seq(),
            b.message@ == self.message_seq(),
            b.web_2fa_url matches Some(u) ==> self.web_2fa_url_seq() == Some(u@),
            b.web_2fa_url is None ==> self.web_2fa_url_seq() is None,
    {
        let url = match self.web_2fa_url() {
            Some(u) => Some(String::from_str(u)),
            None => None,
        };
        ErrorBody { code: String::from_str(self.code()), message: self.message(), web_2fa_url: url }
    }

    /// A cryptographic failure, reported by its message.
    pub fn from_crypto(e: CryptoError) -> (r: Self)
        ensures
            r is Msg,
            r.message_seq() == e.message_seq(),
    {
        AppError::Msg(e.message())
    }

    /// Whether this error is Core's demand for 2FA (`2fa_required` or `totp_required`).
    pub fn is_two_fa(&self) -> (b: bool)
        ensures
            b == (self.code_seq() == "2fa_required"@ || self.code_seq() == "totp_required"@),
    {
        let c = self.code();
        text::str_eq(c, "2fa_required") || text::str_eq(c, "totp_required")
    }
}

} // verus!
