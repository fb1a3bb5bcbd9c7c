//! The system SSH launcher: the configured command and the argument list of
//! a direct connection.
use vstd::prelude::*;

use crate::error::AppError;
use crate::models::{AuthType, Host, Secret};
use crate::text::{self, contains_seq, is_ws, signed_decimal_seq, trim_seq, views, words_seq};

verus! {

/// The words of a launcher command, `ssh` when there are none.
pub open spec fn command_words(command: Seq<char>) -> Seq<Seq<char>> {
    let w = words_seq(command);
    if w.len() == 0 {
        seq!["ssh"@]
    } else {
        w
    }
}

/// A launcher command split into the program and the arguments that precede
/// the connection's own (`kitty +kitten ssh` → `kitty`, `[+kitten, ssh]`).
pub fn split_ssh_command(command: &str) -> (r: Result<(String, Vec<String>), AppError>)
    ensures
        r matches Ok((bin, prefix)) && bin@ == command_words(command@)[0] && views(prefix@)
            == command_words(command@).drop_first(),
{
    let mut parts = text::split_whitespace(command);
    proof {
        reveal_strlit("ssh");
    }
    if parts.len() == 0 {
        parts.push(String::from_str("ssh"));
        proof {
            assert(views(parts@) =~= seq!["ssh"@]);
        }
    }
    proof {
        assert(views(parts@) == command_words(command@));
        assert(views(parts@).len() == parts@.len());
        lemma_words_nonempty(command@);
    }
    let ghost all = views(parts@);
    let bin = parts.remove(0);
    proof {
        assert(views(parts@) =~= command_words(command@).drop_first());
        assert(bin@ == all[0]);
        if words_seq(command@).len() > 0 {
            assert(words_seq(command@)[0].len() > 0);
        }
    }
    if bin.as_str().unicode_len() == 0 {
        return Err(AppError::msg("ssh command is empty"));
    }
    Ok((bin, parts))
}

/// Every word is non-empty.
pub proof fn lemma_words_nonempty(s: Seq<char>)
    ensures
        forall|i: int| 0 <= i < words_seq(s).len() ==> #[trigger] words_seq(s)[i].len() > 0,
    decreases s.len(),
{
    if s.len() > 0 {
        let p = s.drop_last();
        lemma_words_nonempty(p);
        let w = words_seq(p);
        let c = s.last();
        if is_ws(c) {
        } else if s.len() >= 2 && !is_ws(s[s.len() - 2]) {
            assert(p[p.len() - 1] == s[s.len() - 2]);
            assert(w.len() > 0) by {
                lemma_words_last(p);
            }
            assert forall|i: int| 0 <= i < words_seq(s).len() implies #[trigger] words_seq(s)[i].len() > 0 by {
                if i < w.len() - 1 {
                    assert(words_seq(s)[i] == w[i]);
                }
            }
        } else {
            assert forall|i: int| 0 <= i < words_seq(s).len() implies #[trigger] words_seq(s)[i].len() > 0 by {
                if i < w.len() {
                    assert(words_seq(s)[i] == w[i]);
                }
            }
        }
    }
}

/// A text that ends inside a word has at least one word.
proof fn lemma_words_last(s: Seq<char>)
    requires
        s.len() > 0,
        !is_ws(s.last()),
    ensures
        words_seq(s).len() > 0,
    decreases s.len(),
{
    if s.len() >= 2 && !is_ws(s[s.len() - 2]) {
        let p = s.drop_last();
        assert(p.last() == s[s.len() - 2]);
        lemma_words_last(p);
    }
}

/// Why a host cannot be opened in the system SSH client, if it cannot.
pub open spec fn direct_host_refusal(h: Host) -> Option<Seq<char>> {
    if trim_seq(h.address@).len() == 0 {
        Some("host address is empty — external SSH needs a direct IP/hostname"@)
    } else if h.proxy_enabled {
        Some("external SSH is for direct hosts only — use in-app Connect for Vortex Proxy"@)
    } else {
        None
    }
}

/// Only direct hosts with an address open in the system SSH client.
pub fn check_direct_host(host: &Host) -> (r: Result<(), AppError>)
    ensures
        match direct_host_refusal(*host) {
            None => r is Ok,
            Some(m) => r matches Err(e) && e is Msg && e.message_seq() == m,
        },
{
    if text::trim(host.address.as_str()).unicode_len() == 0 {
        return Err(AppError::msg("host address is empty — external SSH needs a direct IP/hostname"));
    }
    if host.proxy_enabled {
        return Err(AppError::msg(
            "external SSH is for direct hosts only — use in-app Connect for Vortex Proxy",
        ));
    }
    Ok(())
}

/// The stored credential as the launcher uses it.
#[derive(Debug)]
pub enum LaunchCredential {
    /// Nothing is stored (or only whitespace).
    Absent,
    /// A PEM private key, to be written to a private temporary file.
    KeyPem(String),
    /// A path to a private key file (`~/` expands to the home directory).
    KeyPath(String),
    /// A password, handed to the client through `SSH_ASKPASS`.
    Password(String),
}

/// The stored credential as the launcher uses it: its trimmed payload, a
/// private key being a PEM document when it contains `-----BEGIN`.
pub fn launch_credential(secret: Option<&Secret>) -> (c: LaunchCredential)
    ensures
        match secret {
            None => c is Absent,
            Some(s) => {
                let p = trim_seq(s.payload@);
                if p.len() == 0 {
                    c is Absent
                } else {
                    match s.auth_type {
                        AuthType::Password => c matches LaunchCredential::Password(x) && x@ == p,
                        AuthType::PrivateKey => if contains_seq(p, "-----BEGIN"@) {
                            c matches LaunchCredential::KeyPem(x) && x@ == p
                        } else {
                            c matches LaunchCredential::KeyPath(x) && x@ == p
                        },
                    }
                }
            },
        },
{
    match secret {
        None => LaunchCredential::Absent,
        Some(s) => {
            let p = text::trim(s.payload.as_str());
            if p.unicode_len() == 0 {
                return LaunchCredential::Absent;
            }
            match s.auth_type {
                AuthType::Password => LaunchCredential::Password(String::from_str(p)),
                AuthType::PrivateKey => if text::contains(p, "-----BEGIN") {
                    LaunchCredential::KeyPem(String::from_str(p))
                } else {
                    LaunchCredential::KeyPath(String::from_str(p))
                },
            }
        },
    }
}

/// The text of a PEM key file: the key and a final newline.
pub fn pem_file_text(pem: &str) -> (r: String)
    ensures
        r@ == pem@ + "\n"@,
{
    let mut r = String::from_str(pem);
    r.append("\n");
    r
}

/// The port of a host, 22 when unset.
pub open spec fn port_or_default(port: i64) -> i64 {
    if port == 0 {
        22
    } else {
        port
    }
}

/// The login of a host, `root` when blank.
pub open spec fn user_or_root(user: Seq<char>) -> Seq<char> {
    if trim_seq(user).len() == 0 {
        "root"@
    } else {
        trim_seq(user)
    }
}

/// The arguments of a direct connection after the launcher's own: a forced
/// TTY, the port, the identity file if any, and `user@address`.
pub open spec fn launch_args_seq(prefix: Seq<Seq<char>>, h: Host, identity: Option<Seq<char>>) -> Seq<Seq<char>> {
    let base = prefix + seq!["-tt"@, "-p"@, signed_decimal_seq(port_or_default(h.port) as int)];
    let with_id = match identity {
        Some(id) => base + seq!["-i"@, id],
        None => base,
    };
    with_id.push(user_or_root(h.user@) + "@"@ + trim_seq(h.address@))
}

/// The arguments of a direct connection.
pub fn launch_args(prefix: Vec<String>, host: &Host, identity: Option<String>) -> (r: Vec<String>)
    ensures
        views(r@) == launch_args_seq(
            views(prefix@),
            *host,
            match identity {
                Some(s) => Some(s@),
                None => None,
            },
        ),
{
    let mut args = prefix;
    let ghost p0 = views(args@);
    args.push(String::from_str("-tt"));
    args.push(String::from_str("-p"));
    let port = if host.port == 0 {
        22
    } else {
        host.port
    };
    args.push(text::i64_to_decimal(port));
    let ghost base = views(args@);
    proof {
        assert(base =~= p0 + seq!["-tt"@, "-p"@, signed_decimal_seq(port_or_default(host.port) as int)]);
    }
    let ghost with_id = match &identity {
        Some(s) => base + seq!["-i"@, s@],
        None => base,
    };
    match identity {
        Some(id) => {
            args.push(String::from_str("-i"));
            args.push(id);
            proof {
                assert(views(args@) =~= with_id);
            }
        },
        None => {},
    }
    let u = text::trim(host.user.as_str());
    let mut target = if u.unicode_len() == 0 {
        String::from_str("root")
    } else {
        String::from_str(u)
    };
    target.append("@");
    target.append(text::trim(host.address.as_str()));
    let ghost before = views(args@);
    args.push(target);
    proof {
        assert(views(args@) =~= before.push(target@));
    }
    args
}

} // verus!
