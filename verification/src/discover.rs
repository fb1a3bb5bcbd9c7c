//! Cloud URL discovery through the getjson mirrors: where to ask, what an
//! answer means, which answer wins, and whether stored URLs are still stock.
use vstd::prelude::*;

use crate::api::client::status_text;
use crate::config::{DEFAULT_CORE_URL, DEFAULT_WEB_URL};
use crate::error::AppError;
use crate::models::Settings;
use crate::text::{self, has_prefix, strip_end_seq, trim_seq};

verus! {

/// Where the client found Core and Web, and how fast the mirror answered.
#[derive(Debug)]
pub struct DiscoveredUrls {
    pub core_url: String,
    pub web_url: String,
    pub info_url: String,
    pub mirror: String,
    pub latency_ms: u64,
}

/// The mirror domains, the preferred one first.
pub open spec fn mirrors_seq() -> Seq<Seq<char>> {
    seq!["vicrorege.com"@, "timant32.ru"@]
}

/// The mirror domains, the preferred one first.
pub fn getjson_mirrors() -> (r: Vec<&'static str>)
    ensures
        r@.len() == mirrors_seq().len(),
        forall|i: int| 0 <= i < r@.len() ==> r@[i]@ == mirrors_seq()[i],
{
    let mut v: Vec<&'static str> = Vec::new();
    v.push("vicrorege.com");
    v.push("timant32.ru");
    v
}

/// The getjson document of a mirror domain.
pub open spec fn getjson_url_seq(domain: Seq<char>) -> Seq<char> {
    "https://getjson."@ + domain + "/c/vortex"@
}

pub fn getjson_url(domain: &str) -> (r: String)
    ensures
        r@ == getjson_url_seq(domain@),
{
    let mut s = String::from_str("https://getjson.");
    s.append(domain);
    s.append("/c/vortex");
    s
}

/// A URL with `https://` added when it has no HTTP scheme; empty stays empty.
pub open spec fn normalize_https_seq(raw: Seq<char>) -> Seq<char> {
    let t = strip_end_seq(trim_seq(raw), '/');
    if t.len() == 0 {
        Seq::empty()
    } else if has_prefix(t, "http://"@) || has_prefix(t, "https://"@) {
        t
    } else {
        "https://"@ + t
    }
}

pub fn normalize_https(raw: &str) -> (r: String)
    ensures
        r@ == normalize_https_seq(raw@),
{
    let t = text::trim_end_char(text::trim(raw), '/');
    if t.unicode_len() == 0 {
        return String::new();
    }
    if text::starts_with(t, "http://") || text::starts_with(t, "https://") {
        String::from_str(t)
    } else {
        let mut s = String::from_str("https://");
        s.append(t);
        s
    }
}

/// A stored URL that is blank or names the same place as the default.
pub open spec fn is_stock_url_seq(stored: Seq<char>, default: Seq<char>) -> bool {
    let v = strip_end_seq(trim_seq(stored), '/');
    v.len() == 0 || normalize_https_seq(v) == normalize_https_seq(strip_end_seq(trim_seq(default), '/'))
}

pub fn is_stock_url(stored: &str, default: &str) -> (b: bool)
    ensures
        b == is_stock_url_seq(stored@, default@),
{
    let v = text::trim_end_char(text::trim(stored), '/');
    if v.unicode_len() == 0 {
        return true;
    }
    let d = text::trim_end_char(text::trim(default), '/');
    let a = normalize_https(v);
    let b = normalize_https(d);
    text::str_eq(a.as_str(), b.as_str())
}

/// Whether the stored Core and Web URLs are blank or still the stock ones.
pub fn urls_are_stock(core_url: &str, web_url: &str) -> (b: bool)
    ensures
        b == (is_stock_url_seq(core_url@, DEFAULT_CORE_URL@) && is_stock_url_seq(web_url@, DEFAULT_WEB_URL@)),
{
    is_stock_url(core_url, DEFAULT_CORE_URL) && is_stock_url(web_url, DEFAULT_WEB_URL)
}

/// The URLs a mirror's document names: `info`, `backend`, `frontend` as read,
/// or the decoder's message.
pub type GetjsonFields = Result<(String, String, String), String>;

/// What a mirror's answer yields: the normalized backend (Core), frontend
/// (Web) and info URLs, or an error naming the mirror.
pub open spec fn payload_spec(parsed: Result<(Seq<char>, Seq<char>, Seq<char>), Seq<char>>, mirror: Seq<char>) -> Result<(Seq<char>, Seq<char>, Seq<char>), Seq<char>> {
    match parsed {
        Err(e) => Err("getjson."@ + mirror + ": invalid JSON ("@ + e + ")"@),
        Ok((info, backend, frontend)) => {
            let core = normalize_https_seq(backend);
            let web = normalize_https_seq(frontend);
            if core.len() == 0 || web.len() == 0 {
                Err("getjson."@ + mirror + ": missing backend/frontend"@)
            } else {
                Ok((core, web, normalize_https_seq(info)))
            }
        },
    }
}

/// The decoded fields by their characters.
pub open spec fn fields_view(parsed: GetjsonFields) -> Result<(Seq<char>, Seq<char>, Seq<char>), Seq<char>> {
    match parsed {
        Err(e) => Err(e@),
        Ok((a, b, c)) => Ok((a@, b@, c@)),
    }
}

/// What a mirror's decoded document yields.
pub fn parse_payload(parsed: GetjsonFields, mirror: &str, latency_ms: u64) -> (r: Result<DiscoveredUrls, AppError>)
    ensures
        match payload_spec(fields_view(parsed), mirror@) {
            Ok((core, web, info)) => r matches Ok(d) && d.core_url@ == core && d.web_url@ == web
                && d.info_url@ == info && d.mirror@ == mirror@ && d.latency_ms == latency_ms,
            Err(m) => r matches Err(e) && e is Msg && e.message_seq() == m,
        },
{
    match parsed {
        Err(e) => {
            let mut m = String::from_str("getjson.");
            m.append(mirror);
            m.append(": invalid JSON (");
            m.append(e.as_str());
            m.append(")");
            Err(AppError::Msg(m))
        },
        Ok((info, backend, frontend)) => {
            let core = normalize_https(backend.as_str());
            let web = normalize_https(frontend.as_str());
            if core.as_str().unicode_len() == 0 || web.as_str().unicode_len() == 0 {
                let mut m = String::from_str("getjson.");
                m.append(mirror);
                m.append(": missing backend/frontend");
                return Err(AppError::Msg(m));
            }
            let info_url = normalize_https(info.as_str());
            Ok(DiscoveredUrls {
                core_url: core,
                web_url: web,
                info_url,
                mirror: String::from_str(mirror),
                latency_ms,
            })
        },
    }
}

/// A mirror's HTTP answer: a non-2xx status fails with the status, otherwise
/// the document decides.
pub fn mirror_answer(domain: &str, status: u16, parsed: GetjsonFields, latency_ms: u64) -> (r: Result<DiscoveredUrls, AppError>)
    requires
        100 <= status <= 999,
    ensures
        !(200 <= status <= 299) ==> (r matches Err(e) && e is Msg && e.message_seq() == "getjson."@
            + domain@ + ": HTTP "@ + status_text(status)),
        200 <= status <= 299 ==> match payload_spec(fields_view(parsed), domain@) {
            Ok((core, web, info)) => r matches Ok(d) && d.core_url@ == core && d.web_url@ == web
                && d.info_url@ == info && d.mirror@ == domain@ && d.latency_ms == latency_ms,
            Err(m) => r matches Err(e) && e is Msg && e.message_seq() == m,
        },
{
    if status < 200 || status > 299 {
        let mut m = String::from_str("getjson.");
        m.append(domain);
        m.append(": HTTP ");
        let st = crate::api::client::status_display(status);
        m.append(st.as_str());
        return Err(AppError::Msg(m));
    }
    parse_payload(parsed, domain, latency_ms)
}

/// The index of the fastest successful answer: the first with the least
/// latency.
pub open spec fn fastest(latencies: Seq<Option<u64>>) -> Option<int>
    decreases latencies.len(),
{
    if latencies.len() == 0 {
        None
    } else {
        let prev = fastest(latencies.drop_last());
        let i = latencies.len() - 1;
        match latencies.last() {
            None => prev,
            Some(l) => match prev {
                None => Some(i),
                Some(p) => if l < latencies[p]->0 {
                    Some(i)
                } else {
                    prev
                },
            },
        }
    }
}

/// Latency of each answer, `None` for a failed one.
pub open spec fn latencies_of(results: Seq<(String, Result<DiscoveredUrls, AppError>)>) -> Seq<Option<u64>> {
    results.map_values(|r: (String, Result<DiscoveredUrls, AppError>)| match r.1 {
        Ok(d) => Some(d.latency_ms),
        Err(_) => None,
    })
}

/// The failures of a race, each as `{domain}: {message}`.
pub open spec fn failures(results: Seq<(String, Result<DiscoveredUrls, AppError>)>) -> Seq<Seq<char>>
    decreases results.len(),
{
    if results.len() == 0 {
        Seq::empty()
    } else {
        let prev = failures(results.drop_last());
        match results.last().1 {
            Ok(_) => prev,
            Err(e) => prev.push(results.last().0@ + ": "@ + e.message_seq()),
        }
    }
}

/// Texts joined with `; `.
pub open spec fn join_seq(parts: Seq<Seq<char>>) -> Seq<char>
    decreases parts.len(),
{
    if parts.len() == 0 {
        Seq::empty()
    } else if parts.len() == 1 {
        parts[0]
    } else {
        join_seq(parts.drop_last()) + "; "@ + parts.last()
    }
}

/// The message when no mirror answered usefully.
pub open spec fn all_failed_message(results: Seq<(String, Result<DiscoveredUrls, AppError>)>) -> Seq<char> {
    let f = failures(results);
    "all getjson mirrors failed ("@ + (if f.len() == 0 {
        "no mirrors"@
    } else {
        join_seq(f)
    }) + ")"@
}

proof fn lemma_fastest_in_range(l: Seq<Option<u64>>)
    ensures
        fastest(l) matches Some(i) ==> 0 <= i < l.len() && l[i] is Some,
        fastest(l) is None <==> forall|k: int| 0 <= k < l.len() ==> l[k] is None,
    decreases l.len(),
{
    if l.len() > 0 {
        lemma_fastest_in_range(l.drop_last());
        assert forall|k: int| 0 <= k < l.len() - 1 implies l.drop_last()[k] == l[k] by {}
    }
}

/// The race law: the winning answer is at least as fast as every successful
/// answer and strictly faster than every earlier one; there is a winner
/// exactly when some answer succeeded.
pub proof fn lemma_fastest_wins(l: Seq<Option<u64>>)
    ensures
        fastest(l) is None <==> forall|k: int| 0 <= k < l.len() ==> l[k] is None,
        fastest(l) matches Some(i) ==> {
            &&& 0 <= i < l.len()
            &&& l[i] is Some
            &&& forall|k: int| 0 <= k < l.len() && l[k] is Some ==> l[i]->0 <= l[k]->0
            &&& forall|k: int| 0 <= k < i && l[k] is Some ==> l[k]->0 > l[i]->0
        },
    decreases l.len(),
{
    lemma_fastest_in_range(l);
    if l.len() > 0 {
        let p = l.drop_last();
        lemma_fastest_wins(p);
        assert forall|k: int| 0 <= k < l.len() - 1 implies p[k] == l[k] by {}
    }
}

/// The winner of a mirror race: the fastest successful answer (the earlier
/// one on a tie), or an error listing every failure.
pub fn pick_fastest(results: Vec<(String, Result<DiscoveredUrls, AppError>)>) -> (r: Result<DiscoveredUrls, AppError>)
    ensures
        match fastest(latencies_of(results@)) {
            Some(i) => r matches Ok(d) && results@[i].1 == Ok::<DiscoveredUrls, AppError>(d),
            None => r matches Err(e) && e is Msg && e.message_seq() == all_failed_message(results@),
        },
{
    let ghost all = results@;
    let mut best: Option<DiscoveredUrls> = None;
    let ghost mut best_i: int = -1;
    let mut errors: Vec<String> = Vec::new();
    let mut rest = results;
    let n = rest.len();
    let mut i: usize = 0;
    proof {
        assert(latencies_of(all.subrange(0, 0)) =~= Seq::<Option<u64>>::empty());
        assert(all.subrange(0, 0) =~= Seq::<(String, Result<DiscoveredUrls, AppError>)>::empty());
        assert(rest@ =~= all.subrange(0, n as int));
    }
    while rest.len() > 0
        invariant
            rest@.len() + i == n,
            n == all.len(),
            rest@ == all.subrange(i as int, n as int),
            fastest(latencies_of(all.subrange(0, i as int))) == (if best_i < 0 {
                None::<int>
            } else {
                Some(best_i)
            }),
            best_i < 0 <==> best is None,
            best matches Some(d) ==> 0 <= best_i < i && all[best_i].1 == Ok::<DiscoveredUrls, AppError>(d),
            text::views(errors@) == failures(all.subrange(0, i as int)),
        decreases rest@.len(),
    {
        let (domain, res) = rest.remove(0);
        let ghost pre = all.subrange(0, i as int);
        let ghost next = all.subrange(0, i + 1);
        proof {
            assert(all[i as int] == (domain, res));
            assert(next.drop_last() =~= pre);
            assert(latencies_of(next).drop_last() =~= latencies_of(pre));
            assert(rest@ =~= all.subrange(i + 1, n as int));
        }
        match res {
            Ok(d) => {
                let take = match &best {
                    None => true,
                    Some(b) => d.latency_ms < b.latency_ms,
                };
                proof {
                    if best_i >= 0 {
                        assert(latencies_of(next)[best_i] == latencies_of(pre)[best_i]);
                    }
                }
                if take {
                    best = Some(d);
                    proof {
                        best_i = i as int;
                    }
                }
                proof {
                    assert(failures(next) =~= failures(pre));
                }
            },
            Err(e) => {
                let mut m = domain;
                m.append(": ");
                let em = e.message();
                m.append(em.as_str());
                let ghost before = errors@;
                errors.push(m);
                proof {
                    assert(text::views(errors@) =~= text::views(before).push(m@));
                }
            },
        }
        i = i + 1;
    }
    proof {
        assert(all.subrange(0, n as int) =~= all);
    }
    match best {
        Some(d) => Ok(d),
        None => {
            let mut m = String::from_str("all getjson mirrors failed (");
            if errors.len() == 0 {
                m.append("no mirrors");
            } else {
                let j = join_strings(&errors);
                m.append(j.as_str());
            }
            m.append(")");
            Err(AppError::Msg(m))
        },
    }
}

/// Texts joined with `; `.
fn join_strings(parts: &Vec<String>) -> (r: String)
    ensures
        r@ == join_seq(text::views(parts@)),
{
    let mut out = String::new();
    let mut i: usize = 0;
    while i < parts.len()
        invariant
            i <= parts@.len(),
            out@ == join_seq(text::views(parts@).subrange(0, i as int)),
        decreases parts@.len() - i,
    {
        proof {
            assert(text::views(parts@).subrange(0, i + 1).drop_last() =~= text::views(parts@).subrange(0, i as int));
            assert(text::views(parts@)[i as int] == parts@[i as int]@);
        }
        if i > 0 {
            out.append("; ");
        }
        out.append(parts[i].as_str());
        i = i + 1;
    }
    proof {
        assert(text::views(parts@).subrange(0, parts@.len() as int) =~= text::views(parts@));
    }
    out
}

/// What a refresh at start-up yields from a discovery (run only while
/// `urls_are_stock`): the discovered URLs, or nothing when it failed, so that
/// the stored URLs stay.
pub fn refresh_outcome(discovered: Result<DiscoveredUrls, AppError>) -> (r: Option<DiscoveredUrls>)
    ensures
        match discovered {
            Ok(d) => r == Some(d),
            Err(_) => r is None,
        },
{
    match discovered {
        Ok(d) => Some(d),
        Err(_) => None,
    }
}

/// The settings after a reset of the cloud URLs: Core and Web as discovered,
/// everything else as it was.
pub fn apply_discovered_urls(st: &mut Settings, d: &DiscoveredUrls)
    ensures
        final(st).core_url@ == d.core_url@,
        final(st).web_url@ == d.web_url@,
        final(st).api_key == old(st).api_key,
        final(st).account_email == old(st).account_email,
        final(st).last_sync_at == old(st).last_sync_at,
        final(st).sync_on_start == old(st).sync_on_start,
        final(st).terminal_layout == old(st).terminal_layout,
        final(st).ssh_command == old(st).ssh_command,
        final(st).system_terminal == old(st).system_terminal,
{
    st.core_url = String::from_str(d.core_url.as_str());
    st.web_url = String::from_str(d.web_url.as_str());
}

/// The stock URLs, for when discovery cannot run.
pub fn fallback_urls() -> (d: DiscoveredUrls)
    ensures
        d.core_url@ == DEFAULT_CORE_URL@,
        d.web_url@ == DEFAULT_WEB_URL@,
        d.info_url@ == "https://vortex.timant32.ru"@,
        d.mirror@ == "builtin"@,
        d.latency_ms == 0,
{
    DiscoveredUrls {
        core_url: String::from_str(DEFAULT_CORE_URL),
        web_url: String::from_str(DEFAULT_WEB_URL),
        info_url: String::from_str("https://vortex.timant32.ru"),
        mirror: String::from_str("builtin"),
        latency_ms: 0,
    }
}

} // verus!
