//! SSH user authentication: which methods to try, in what order, and how a
//! typed answer to a prompt is read.
use vstd::prelude::*;

use crate::api::client::{spec_utf8_lossy, utf8_lossy};
use crate::models::{AuthType, Secret};
use crate::text::{self, trim_seq};

verus! {

/// The login, `root` when empty.
pub open spec fn login_user_seq(user: Seq<char>) -> Seq<char> {
    if user.len() == 0 {
        "root"@
    } else {
        user
    }
}

pub fn login_user(user: &str) -> (r: &str)
    ensures
        r@ == login_user_seq(user@),
{
    if user.unicode_len() == 0 {
        "root"
    } else {
        user
    }
}

/// The stored credential to try first: its kind and trimmed payload, when
/// the payload is not blank.
pub fn stored_credential(secret: Option<&Secret>) -> (r: Option<(AuthType, String)>)
    ensures
        match secret {
            Some(s) => if trim_seq(s.payload@).len() > 0 {
                r matches Some((t, p)) && t == s.auth_type && p@ == trim_seq(s.payload@)
            } else {
                r is None
            },
            None => r is None,
        },
{
    match secret {
        Some(s) => {
            let p = text::trim(s.payload.as_str());
            if p.unicode_len() > 0 {
                Some((s.auth_type, String::from_str(p)))
            } else {
                None
            }
        },
        None => None,
    }
}

/// The methods that the server still accepts after a failed attempt.
#[derive(Debug, Clone, Copy)]
pub struct RemainingMethods {
    pub publickey: bool,
    pub keyboard_interactive: bool,
    pub password: bool,
    /// The server named other methods too.
    pub other: bool,
}

impl RemainingMethods {
    /// The server named no method at all.
    pub open spec fn is_empty(self) -> bool {
        !self.publickey && !self.keyboard_interactive && !self.password && !self.other
    }

    /// Whether to try the agent and the default key files: when the server
    /// named no method, or named public keys.
    pub fn try_publickey(&self) -> (b: bool)
        ensures
            b == (self.is_empty() || self.publickey),
    {
        (!self.publickey && !self.keyboard_interactive && !self.password && !self.other) || self.publickey
    }

    /// Whether to try keyboard-interactive prompts.
    pub fn try_keyboard_interactive(&self) -> (b: bool)
        ensures
            b == (self.is_empty() || self.keyboard_interactive),
    {
        (!self.publickey && !self.keyboard_interactive && !self.password && !self.other)
            || self.keyboard_interactive
    }

    /// Whether to prompt for a password.
    pub fn try_password(&self) -> (b: bool)
        ensures
            b == (self.is_empty() || self.password),
    {
        (!self.publickey && !self.keyboard_interactive && !self.password && !self.other) || self.password
    }
}

/// Where an authentication attempt stands: the method whose outcome is
/// awaited next.
#[derive(Debug, Clone, Copy)]
pub enum AuthStage {
    /// The stored credential of this kind was tried.
    Stored(AuthType),
    /// The `none` method was tried, to learn what the server accepts.
    Probe,
    /// The ssh-agent identities were tried; the server accepts these methods.
    Agent(RemainingMethods),
    /// The default key files were tried; the server accepts these methods.
    KeyFiles(RemainingMethods),
    /// Keyboard-interactive prompts were answered.
    KeyboardInteractive,
    /// A typed password was tried.
    Password,
    /// Nothing more is tried.
    Finished,
}

/// What the server answered to the last attempt.
#[derive(Debug, Clone, Copy)]
pub enum AuthOutcome {
    Accepted,
    /// Refused; the methods the server still accepts, as far as the answer
    /// names them (read after the `none` probe and keyboard-interactive).
    Refused(RemainingMethods),
}

/// What to do next.
#[derive(Debug)]
pub enum AuthAction {
    /// Try the stored credential of this kind with this trimmed payload.
    TryStored(AuthType, String),
    /// Try the `none` method.
    ProbeNone,
    /// Try each ssh-agent identity.
    TryAgent,
    /// Try the default key files in `~/.ssh`.
    TryKeyFiles,
    /// Run keyboard-interactive prompts.
    KeyboardInteractive,
    /// Prompt for a password and try it.
    PromptPassword,
    /// Authenticated.
    Succeed,
    /// Give up with this message.
    Fail(String),
}

/// The view of an action: its variant and texts.
pub enum AuthActionView {
    TryStored(AuthType, Seq<char>),
    ProbeNone,
    TryAgent,
    TryKeyFiles,
    KeyboardInteractive,
    PromptPassword,
    Succeed,
    Fail(Seq<char>),
}

impl View for AuthAction {
    type V = AuthActionView;

    open spec fn view(&self) -> AuthActionView {
        match self {
            AuthAction::TryStored(t, p) => AuthActionView::TryStored(*t, p@),
            AuthAction::ProbeNone => AuthActionView::ProbeNone,
            AuthAction::TryAgent => AuthActionView::TryAgent,
            AuthAction::TryKeyFiles => AuthActionView::TryKeyFiles,
            AuthAction::KeyboardInteractive => AuthActionView::KeyboardInteractive,
            AuthAction::PromptPassword => AuthActionView::PromptPassword,
            AuthAction::Succeed => AuthActionView::Succeed,
            AuthAction::Fail(m) => AuthActionView::Fail(m@),
        }
    }
}

/// The message when a stored private key is refused.
pub open spec fn stored_key_refused() -> Seq<char> {
    "SSH public-key authentication failed"@
}

/// The message when every method was refused: the terminal session names
/// the prompts it offered, the file browser (which never prompts) says what
/// to set up.
pub open spec fn auth_failed_message(interactive: bool) -> Seq<char> {
    if interactive {
        "SSH authentication failed \u{2014} agent, ~/.ssh keys, and interactive prompt were tried"@
    } else {
        "SFTP auth failed \u{2014} save a password or key on the host, or load ssh-agent / ~/.ssh"@
    }
}

/// The first step: the stored credential when its payload is not blank,
/// otherwise the `none` probe.
pub open spec fn auth_first(secret: Option<Secret>) -> (AuthStage, AuthActionView) {
    match secret {
        Some(s) => if trim_seq(s.payload@).len() > 0 {
            (AuthStage::Stored(s.auth_type), AuthActionView::TryStored(s.auth_type, trim_seq(s.payload@)))
        } else {
            (AuthStage::Probe, AuthActionView::ProbeNone)
        },
        None => (AuthStage::Probe, AuthActionView::ProbeNone),
    }
}

/// After the public-key methods (or instead of them): keyboard-interactive,
/// then a password prompt, each only in a terminal session and only when the
/// server accepts it.
pub open spec fn after_public_keys(m: RemainingMethods, interactive: bool) -> (AuthStage, AuthActionView) {
    if interactive && (m.is_empty() || m.keyboard_interactive) {
        (AuthStage::KeyboardInteractive, AuthActionView::KeyboardInteractive)
    } else if interactive && (m.is_empty() || m.password) {
        (AuthStage::Password, AuthActionView::PromptPassword)
    } else {
        (AuthStage::Finished, AuthActionView::Fail(auth_failed_message(interactive)))
    }
}

/// The next step after `outcome` at `stage`.
pub open spec fn auth_transition(stage: AuthStage, interactive: bool, outcome: AuthOutcome) -> (AuthStage, AuthActionView) {
    match outcome {
        AuthOutcome::Accepted => match stage {
            AuthStage::Finished => (AuthStage::Finished, AuthActionView::Fail(auth_failed_message(interactive))),
            _ => (AuthStage::Finished, AuthActionView::Succeed),
        },
        AuthOutcome::Refused(m) => match stage {
            AuthStage::Stored(AuthType::Password) => (AuthStage::Probe, AuthActionView::ProbeNone),
            AuthStage::Stored(AuthType::PrivateKey) => (AuthStage::Finished, AuthActionView::Fail(stored_key_refused())),
            AuthStage::Probe => if m.is_empty() || m.publickey {
                (AuthStage::Agent(m), AuthActionView::TryAgent)
            } else {
                after_public_keys(m, interactive)
            },
            AuthStage::Agent(known) => (AuthStage::KeyFiles(known), AuthActionView::TryKeyFiles),
            AuthStage::KeyFiles(known) => after_public_keys(known, interactive),
            AuthStage::KeyboardInteractive => if m.is_empty() || m.password {
                (AuthStage::Password, AuthActionView::PromptPassword)
            } else {
                (AuthStage::Finished, AuthActionView::Fail(auth_failed_message(interactive)))
            },
            AuthStage::Password => (AuthStage::Finished, AuthActionView::Fail(auth_failed_message(interactive))),
            AuthStage::Finished => (AuthStage::Finished, AuthActionView::Fail(auth_failed_message(interactive))),
        },
    }
}

fn failed_message(interactive: bool) -> (m: String)
    ensures
        m@ == auth_failed_message(interactive),
{
    if interactive {
        String::from_str("SSH authentication failed \u{2014} agent, ~/.ssh keys, and interactive prompt were tried")
    } else {
        String::from_str("SFTP auth failed \u{2014} save a password or key on the host, or load ssh-agent / ~/.ssh")
    }
}

/// The first step of authenticating with an optional stored secret.
pub fn auth_start(secret: Option<&Secret>) -> (r: (AuthStage, AuthAction))
    ensures
        (r.0, r.1@) == auth_first(match secret { Some(s) => Some(*s), None => None }),
{
    match stored_credential(secret) {
        Some((t, p)) => (AuthStage::Stored(t), AuthAction::TryStored(t, p)),
        None => (AuthStage::Probe, AuthAction::ProbeNone),
    }
}

fn after_keys(m: RemainingMethods, interactive: bool) -> (r: (AuthStage, AuthAction))
    ensures
        (r.0, r.1@) == after_public_keys(m, interactive),
{
    if interactive && m.try_keyboard_interactive() {
        (AuthStage::KeyboardInteractive, AuthAction::KeyboardInteractive)
    } else if interactive && m.try_password() {
        (AuthStage::Password, AuthAction::PromptPassword)
    } else {
        (AuthStage::Finished, AuthAction::Fail(failed_message(interactive)))
    }
}

/// The next step after the server answered `outcome` at `stage`;
/// `interactive` says whether prompts can be shown (a terminal session) or
/// not (the file browser).
pub fn auth_next(stage: AuthStage, interactive: bool, outcome: AuthOutcome) -> (r: (AuthStage, AuthAction))
    ensures
        (r.0, r.1@) == auth_transition(stage, interactive, outcome),
{
    match outcome {
        AuthOutcome::Accepted => match stage {
            AuthStage::Finished => (AuthStage::Finished, AuthAction::Fail(failed_message(interactive))),
            _ => (AuthStage::Finished, AuthAction::Succeed),
        },
        AuthOutcome::Refused(m) => match stage {
            AuthStage::Stored(AuthType::Password) => (AuthStage::Probe, AuthAction::ProbeNone),
            AuthStage::Stored(AuthType::PrivateKey) => (
                AuthStage::Finished,
                AuthAction::Fail(String::from_str("SSH public-key authentication failed")),
            ),
            AuthStage::Probe => if m.try_publickey() {
                (AuthStage::Agent(m), AuthAction::TryAgent)
            } else {
                after_keys(m, interactive)
            },
            AuthStage::Agent(known) => (AuthStage::KeyFiles(known), AuthAction::TryKeyFiles),
            AuthStage::KeyFiles(known) => after_keys(known, interactive),
            AuthStage::KeyboardInteractive => if m.try_password() {
                (AuthStage::Password, AuthAction::PromptPassword)
            } else {
                (AuthStage::Finished, AuthAction::Fail(failed_message(interactive)))
            },
            AuthStage::Password => (AuthStage::Finished, AuthAction::Fail(failed_message(interactive))),
            AuthStage::Finished => (AuthStage::Finished, AuthAction::Fail(failed_message(interactive))),
        },
    }
}

/// The order in which the methods come: each step moves strictly later.
pub open spec fn stage_rank(stage: AuthStage) -> int {
    match stage {
        AuthStage::Stored(_) => 0,
        AuthStage::Probe => 1,
        AuthStage::Agent(_) => 2,
        AuthStage::KeyFiles(_) => 3,
        AuthStage::KeyboardInteractive => 4,
        AuthStage::Password => 5,
        AuthStage::Finished => 6,
    }
}

/// Each method is tried at most once: every step from an unfinished stage
/// moves to a later stage, so an attempt ends after at most six answers; an
/// accepted answer always ends it with success, and only the finished stage
/// has no method left to try.
pub proof fn lemma_auth_progress(stage: AuthStage, interactive: bool, outcome: AuthOutcome)
    requires
        !(stage is Finished),
    ensures
        stage_rank(auth_transition(stage, interactive, outcome).0) > stage_rank(stage),
        outcome is Accepted ==> auth_transition(stage, interactive, outcome) == (AuthStage::Finished, AuthActionView::Succeed),
        (auth_transition(stage, interactive, outcome).0 is Finished) <==> (
            auth_transition(stage, interactive, outcome).1 is Succeed
            || auth_transition(stage, interactive, outcome).1 is Fail),
{
}

/// The file browser never prompts: without a terminal, no step asks for
/// keyboard-interactive answers or a password.
pub proof fn lemma_noninteractive_never_prompts(stage: AuthStage, outcome: AuthOutcome)
    requires
        !(stage is KeyboardInteractive),
        !(stage is Password),
    ensures
        !(auth_transition(stage, false, outcome).1 is KeyboardInteractive),
        !(auth_transition(stage, false, outcome).1 is PromptPassword),
        !(auth_transition(stage, false, outcome).0 is KeyboardInteractive),
        !(auth_transition(stage, false, outcome).0 is Password),
{
}

/// The default key files tried in `~/.ssh`, in order.
pub open spec fn default_key_files() -> Seq<Seq<char>> {
    seq!["id_ed25519"@, "id_ecdsa"@, "id_rsa"@, "id_ed25519_sk"@]
}

pub fn default_key_files_list() -> (r: Vec<&'static str>)
    ensures
        r@.len() == default_key_files().len(),
        forall|i: int| 0 <= i < r@.len() ==> r@[i]@ == default_key_files()[i],
{
    let mut v: Vec<&'static str> = Vec::new();
    v.push("id_ed25519");
    v.push("id_ecdsa");
    v.push("id_rsa");
    v.push("id_ed25519_sk");
    v
}

/// How a stored private key is loaded: a PEM document in place, otherwise
/// the path of a key file.
pub fn key_is_inline(payload: &str) -> (b: bool)
    ensures
        b == text::contains_seq(payload@, "-----BEGIN"@),
{
    text::contains(payload, "-----BEGIN")
}

/// What a key typed at an authentication prompt does.
#[derive(Debug)]
pub enum KeyEffect {
    /// Enter: the answer is complete.
    Submit(String),
    /// Backspace erased a character; the terminal is sent `\x08 \x08`.
    Erase,
    /// The character is shown.
    Echo(u8),
    /// Nothing is shown.
    Nothing,
}

/// The answer typed so far at a prompt.
#[derive(Debug)]
pub struct AnswerLine {
    buf: Vec<u8>,
    echo: bool,
}

/// The bytes kept after typing `bytes` on a line holding `buf`: Backspace
/// (0x7f or 0x08) drops the last byte, tab and bytes from 0x20 are kept, other
/// control bytes are ignored. (Enter ends the line before this applies.)
pub open spec fn typed(buf: Seq<u8>, bytes: Seq<u8>) -> Seq<u8>
    decreases bytes.len(),
{
    if bytes.len() == 0 {
        buf
    } else {
        let prev = typed(buf, bytes.drop_last());
        let b = bytes.last();
        if b == 0x7f || b == 0x08 {
            if prev.len() > 0 {
                prev.drop_last()
            } else {
                prev
            }
        } else if b >= 32 || b == 9 {
            prev.push(b)
        } else {
            prev
        }
    }
}

impl AnswerLine {
    /// The bytes of the answer so far.
    pub closed spec fn bytes(&self) -> Seq<u8> {
        self.buf@
    }

    /// Whether typed characters are shown.
    pub closed spec fn echoes(&self) -> bool {
        self.echo
    }

    /// An empty answer; `echo` says whether the prompt shows what is typed.
    pub fn new(echo: bool) -> (l: AnswerLine)
        ensures
            l.bytes() == Seq::<u8>::empty(),
            l.echoes() == echo,
    {
        AnswerLine { buf: Vec::new(), echo }
    }

    /// One key typed at the prompt.
    pub fn key(&mut self, b: u8) -> (e: KeyEffect)
        ensures
            final(self).echoes() == old(self).echoes(),
            (b == 0x0d || b == 0x0a) ==> final(self).bytes() == old(self).bytes() && (e matches KeyEffect::Submit(s)
                && s@ == spec_utf8_lossy(old(self).bytes())),
            !(b == 0x0d || b == 0x0a) ==> final(self).bytes() == typed(old(self).bytes(), seq![b]),
            (b == 0x7f || b == 0x08) ==> (if old(self).bytes().len() > 0 && old(self).echoes() {
                e is Erase
            } else {
                e is Nothing
            }),
            !(b == 0x0d || b == 0x0a || b == 0x7f || b == 0x08) && (b >= 32 || b == 9) ==> (if old(self).echoes() {
                e == KeyEffect::Echo(b)
            } else {
                e is Nothing
            }),
            !(b == 0x0d || b == 0x0a || b == 0x7f || b == 0x08) && !(b >= 32 || b == 9) ==> e is Nothing,
    {
        proof {
            assert(seq![b].drop_last() =~= Seq::<u8>::empty());
            reveal_with_fuel(typed, 2);
        }
        if b == 0x0d || b == 0x0a {
            return KeyEffect::Submit(utf8_lossy(self.buf.as_slice()));
        }
        if b == 0x7f || b == 0x08 {
            if self.buf.len() > 0 {
                self.buf.pop();
                if self.echo {
                    return KeyEffect::Erase;
                }
            }
            return KeyEffect::Nothing;
        }
        if b >= 32 || b == 9 {
            self.buf.push(b);
            if self.echo {
                return KeyEffect::Echo(b);
            }
        }
        KeyEffect::Nothing
    }
}

/// Backspace on an empty answer changes nothing, and typing a printable byte
/// then Backspace gives back the answer as it was.
pub proof fn lemma_backspace_undoes(buf: Seq<u8>, b: u8)
    requires
        b >= 32 || b == 9,
        b != 0x7f,
    ensures
        typed(Seq::empty(), seq![0x7fu8]) == Seq::<u8>::empty(),
        typed(typed(buf, seq![b]), seq![0x7fu8]) == buf,
{
    reveal_with_fuel(typed, 2);
    assert(seq![0x7fu8].drop_last() =~= Seq::<u8>::empty());
    assert(seq![b].drop_last() =~= Seq::<u8>::empty());
    assert(typed(buf, seq![b]) =~= buf.push(b));
    assert(buf.push(b).drop_last() =~= buf);
}

} // verus!
