//! File listings of the SFTP and local panes: joining remote paths, building
//! entries, and their order (directories first, then by lower-cased name).
use vstd::prelude::*;

use crate::error::AppError;
use crate::text::{self, strip_end_seq, trim_seq};

verus! {

broadcast use vstd::seq_lib::group_to_multiset_ensures;

/// One entry of a listing.
#[derive(Debug)]
pub struct FsEntry {
    pub name: String,
    pub path: String,
    pub is_dir: bool,
    pub size: u64,
    pub mtime: Option<i64>,
    pub mode: Option<u32>,
}

/// An entry by value, its strings by their characters.
pub struct FsEntryView {
    pub name: Seq<char>,
    pub path: Seq<char>,
    pub is_dir: bool,
    pub size: u64,
    pub mtime: Option<i64>,
    pub mode: Option<u32>,
}

impl View for FsEntry {
    type V = FsEntryView;

    open spec fn view(&self) -> FsEntryView {
        FsEntryView {
            name: self.name@,
            path: self.path@,
            is_dir: self.is_dir,
            size: self.size,
            mtime: self.mtime,
            mode: self.mode,
        }
    }
}

/// Entries by value.
pub open spec fn entry_views(s: Seq<FsEntry>) -> Seq<FsEntryView> {
    s.map_values(|e: FsEntry| e@)
}

/// A directory listing.
#[derive(Debug)]
pub struct FsListing {
    pub path: String,
    pub entries: Vec<FsEntry>,
}

/// The outcome of opening an SFTP session.
#[derive(Debug)]
pub struct SftpConnectResult {
    pub cwd: String,
    pub mode: String,
}

/// `s` with every `//` replaced by `/`, left to right.
pub open spec fn collapse_double_slash(s: Seq<char>) -> Seq<char>
    decreases s.len(),
{
    if s.len() == 0 {
        s
    } else if s.len() >= 2 && s[0] == '/' && s[1] == '/' {
        seq!['/'] + collapse_double_slash(s.skip(2))
    } else {
        seq![s[0]] + collapse_double_slash(s.skip(1))
    }
}

/// A child path on the server: under the root (or `.`) it is `/name` with
/// doubled slashes collapsed, otherwise `parent/name` without trailing
/// slashes on the parent.
pub open spec fn posix_join_seq(parent: Seq<char>, name: Seq<char>) -> Seq<char> {
    let p = strip_end_seq(parent, '/');
    if p.len() == 0 || p == "."@ {
        collapse_double_slash("/"@ + name)
    } else {
        p + "/"@ + name
    }
}

fn collapse(s: &str) -> (r: String)
    ensures
        r@ == collapse_double_slash(s@),
{
    let n = s.unicode_len();
    let mut out = String::new();
    let mut i: usize = 0;
    proof {
        assert(s@.skip(0) =~= s@);
    }
    while i < n
        invariant
            n == s@.len(),
            i <= n,
            out@ + collapse_double_slash(s@.skip(i as int)) == collapse_double_slash(s@),
        decreases n - i,
    {
        let ghost rest = s@.skip(i as int);
        if i + 1 < n && s.get_char(i) == '/' && s.get_char(i + 1) == '/' {
            proof {
                reveal_strlit("/");
                assert(rest[0] == s@[i as int] && rest[1] == s@[i + 1]);
                assert(rest.skip(2) =~= s@.skip(i + 2));
            }
            out.append("/");
            i = i + 2;
        } else {
            proof {
                assert(rest[0] == s@[i as int]);
                if i + 1 < n {
                    assert(rest[1] == s@[i + 1]);
                }
                assert(rest.skip(1) =~= s@.skip(i + 1));
            }
            let c = s.substring_char(i, i + 1);
            proof {
                assert(c@ =~= seq![rest[0]]);
            }
            out.append(c);
            i = i + 1;
        }
        proof {
            assert(out@ + collapse_double_slash(s@.skip(i as int)) =~= collapse_double_slash(s@));
        }
    }
    proof {
        assert(s@.skip(n as int) =~= Seq::<char>::empty());
        assert(out@ + Seq::<char>::empty() =~= out@);
    }
    out
}

/// A child path on the server.
pub fn posix_join(parent: &str, name: &str) -> (r: String)
    ensures
        r@ == posix_join_seq(parent@, name@),
{
    let p = text::trim_end_char(parent, '/');
    if p.unicode_len() == 0 || text::str_eq(p, ".") {
        let mut s = String::from_str("/");
        s.append(name);
        collapse(s.as_str())
    } else {
        let mut s = String::from_str(p);
        s.append("/");
        s.append(name);
        s
    }
}

/// Modification time in seconds since the epoch, from the seconds that the
/// clock reported (`None` for a time before the epoch), as a signed number.
pub fn system_mtime(secs: Option<u64>) -> (r: Option<i64>)
    ensures
        match secs {
            Some(s) => r == Some((s as i64)),
            None => r is None,
        },
{
    match secs {
        Some(s) => Some(s as i64),
        None => None,
    }
}

/// The directory that a listing request reads: `.` for a blank path.
pub open spec fn list_target_seq(path: Seq<char>) -> Seq<char> {
    if crate::text::trim_seq(path).len() == 0 {
        "."@
    } else {
        path
    }
}

pub fn list_target(path: &str) -> (r: &str)
    ensures
        r@ == list_target_seq(path@),
{
    if text::trim(path).unicode_len() == 0 {
        "."
    } else {
        path
    }
}

/// A directory entry as the SFTP server reports it.
#[derive(Debug)]
pub struct RemoteEntry {
    pub name: String,
    pub is_dir: bool,
    pub size: Option<u64>,
    pub mtime: Option<u32>,
    pub permissions: Option<u32>,
}

/// `str::to_lowercase` (Unicode lower case).
pub uninterp spec fn spec_lowercase(s: Seq<char>) -> Seq<char>;

/// `str::to_lowercase`. Claims: the result is the named lower-case text.
#[verifier::external_body]
fn to_lowercase(s: &str) -> (r: String)
    ensures
        r@ == spec_lowercase(s@),
{
    s.to_lowercase()
}

/// Lexicographic order of texts by code point (the order of `String`).
pub open spec fn lex_le(a: Seq<char>, b: Seq<char>) -> bool
    decreases a.len(),
{
    if a.len() == 0 {
        true
    } else if b.len() == 0 {
        false
    } else if (a[0] as u32) != (b[0] as u32) {
        (a[0] as u32) < (b[0] as u32)
    } else {
        lex_le(a.drop_first(), b.drop_first())
    }
}

/// The code-point order of texts is total.
pub proof fn lemma_lex_total(a: Seq<char>, b: Seq<char>)
    ensures
        lex_le(a, b) || lex_le(b, a),
    decreases a.len(),
{
    if a.len() > 0 && b.len() > 0 && (a[0] as u32) == (b[0] as u32) {
        lemma_lex_total(a.drop_first(), b.drop_first());
    }
}

/// The code-point order of texts is transitive.
pub proof fn lemma_lex_trans(a: Seq<char>, b: Seq<char>, c: Seq<char>)
    requires
        lex_le(a, b),
        lex_le(b, c),
    ensures
        lex_le(a, c),
    decreases a.len(),
{
    if a.len() > 0 && b.len() > 0 && c.len() > 0 && (a[0] as u32) == (b[0] as u32) && (b[0] as u32)
        == (c[0] as u32) {
        lemma_lex_trans(a.drop_first(), b.drop_first(), c.drop_first());
    }
}

/// The listing order: directories first, then by lower-cased name.
pub open spec fn entry_le(a: FsEntryView, b: FsEntryView) -> bool {
    ||| a.is_dir && !b.is_dir
    ||| a.is_dir == b.is_dir && lex_le(spec_lowercase(a.name), spec_lowercase(b.name))
}

/// Entries in listing order.
pub open spec fn sorted_entries(s: Seq<FsEntry>) -> bool {
    forall|i: int, j: int| 0 <= i < j < s.len() ==> entry_le(#[trigger] s[i]@, #[trigger] s[j]@)
}

proof fn lemma_entry_total(a: FsEntryView, b: FsEntryView)
    ensures
        entry_le(a, b) || entry_le(b, a),
{
    lemma_lex_total(spec_lowercase(a.name), spec_lowercase(b.name));
}

proof fn lemma_entry_trans(a: FsEntryView, b: FsEntryView, c: FsEntryView)
    requires
        entry_le(a, b),
        entry_le(b, c),
    ensures
        entry_le(a, c),
{
    if a.is_dir == b.is_dir && b.is_dir == c.is_dir {
        lemma_lex_trans(spec_lowercase(a.name), spec_lowercase(b.name), spec_lowercase(c.name));
    }
}

/// Two entries that the listing order cannot tell apart.
pub open spec fn same_place(a: FsEntryView, b: FsEntryView) -> bool {
    entry_le(a, b) && entry_le(b, a)
}

pub open spec fn tied_with(e: FsEntryView) -> spec_fn(FsEntryView) -> bool {
    |y: FsEntryView| same_place(y, e)
}

/// The entries of `s` that sort level with `e`, in the order of `s`.
pub open spec fn ties(s: Seq<FsEntryView>, e: FsEntryView) -> Seq<FsEntryView> {
    s.filter(tied_with(e))
}

/// Inserting `x` after every entry that sorts at or before it, and before
/// every entry that sorts after it, appends `x` to its ties.
proof fn lemma_insert_keeps_ties(before: Seq<FsEntryView>, p: int, x: FsEntryView, e: FsEntryView)
    requires
        0 <= p <= before.len(),
        forall|j: int| 0 <= j < p ==> entry_le(#[trigger] before[j], x),
        forall|j: int| p <= j < before.len() ==> !entry_le(#[trigger] before[j], x),
    ensures
        ties(before.insert(p, x), e) == if same_place(x, e) {
            ties(before, e).push(x)
        } else {
            ties(before, e)
        },
{
    let pred = tied_with(e);
    let head = before.subrange(0, p);
    let tail = before.subrange(p, before.len() as int);
    assert(before =~= head + tail);
    assert(before.insert(p, x) =~= head + seq![x] + tail);
    Seq::filter_distributes_over_add(head, tail, pred);
    Seq::filter_distributes_over_add(head + seq![x], tail, pred);
    Seq::filter_distributes_over_add(head, seq![x], pred);
    assert(seq![x] =~= Seq::<FsEntryView>::empty().push(x));
    Seq::<FsEntryView>::empty().lemma_filter_push(x, pred);
    reveal(Seq::filter);
    assert(Seq::<FsEntryView>::empty().filter(pred) =~= Seq::<FsEntryView>::empty());
    if same_place(x, e) {
        assert forall|i: int| 0 <= i < tail.len() implies !#[trigger] pred(tail[i]) by {
            assert(tail[i] == before[p + i]);
            if pred(tail[i]) {
                lemma_entry_trans(tail[i], e, x);
            }
        }
        assert(tail.all(|y: FsEntryView| !pred(y)));
        tail.lemma_all_neg_filter_empty(pred);
        assert(tail.filter(pred) =~= Seq::<FsEntryView>::empty());
        assert(head.filter(pred) + seq![x] + Seq::<FsEntryView>::empty() =~= head.filter(pred).push(x));
        assert(head.filter(pred) + Seq::<FsEntryView>::empty() =~= head.filter(pred));
    } else {
        assert(head.filter(pred) + Seq::<FsEntryView>::empty() =~= head.filter(pred));
    }
}

fn lex_le_exec(a: &str, b: &str) -> (r: bool)
    ensures
        r == lex_le(a@, b@),
{
    let n = a.unicode_len();
    let m = b.unicode_len();
    let mut i: usize = 0;
    proof {
        assert(a@.skip(0) =~= a@);
        assert(b@.skip(0) =~= b@);
    }
    while i < n && i < m && (a.get_char(i) as u32) == (b.get_char(i) as u32)
        invariant
            n == a@.len(),
            m == b@.len(),
            i <= n,
            i <= m,
            lex_le(a@, b@) == lex_le(a@.skip(i as int), b@.skip(i as int)),
        decreases n - i,
    {
        proof {
            assert(a@.skip(i as int).drop_first() =~= a@.skip(i + 1));
            assert(b@.skip(i as int).drop_first() =~= b@.skip(i + 1));
        }
        i = i + 1;
    }
    if i == n {
        true
    } else if i == m {
        false
    } else {
        (a.get_char(i) as u32) < (b.get_char(i) as u32)
    }
}

fn entry_le_exec(a: &FsEntry, b: &FsEntry) -> (r: bool)
    ensures
        r == entry_le(a@, b@),
{
    if a.is_dir != b.is_dir {
        return a.is_dir;
    }
    let la = to_lowercase(a.name.as_str());
    let lb = to_lowercase(b.name.as_str());
    lex_le_exec(la.as_str(), lb.as_str())
}

/// Entries in listing order: a sorted rearrangement of the given ones, equal
/// entries keeping their relative order.
pub fn sort_entries(entries: Vec<FsEntry>) -> (r: Vec<FsEntry>)
    ensures
        sorted_entries(r@),
        entry_views(r@).to_multiset() == entry_views(entries@).to_multiset(),
        forall|e: FsEntryView| #[trigger] ties(entry_views(r@), e) == ties(entry_views(entries@), e),
{
    let ghost all = entries@;
    let mut rest = entries;
    let mut out: Vec<FsEntry> = Vec::new();
    let n = rest.len();
    let mut k: usize = 0;
    proof {
        assert(all.subrange(0, 0) =~= Seq::<FsEntry>::empty());
        assert(rest@ =~= all.subrange(0, n as int));
    }
    while rest.len() > 0
        invariant
            n == all.len(),
            rest@.len() + k == n,
            rest@ == all.subrange(k as int, n as int),
            sorted_entries(out@),
            entry_views(out@).to_multiset() == entry_views(all.subrange(0, k as int)).to_multiset(),
            forall|e: FsEntryView| #[trigger] ties(entry_views(out@), e) == ties(
                entry_views(all.subrange(0, k as int)),
                e,
            ),
        decreases rest@.len(),
    {
        let x = rest.remove(0);
        proof {
            assert(x == all[k as int]);
            assert(rest@ =~= all.subrange(k + 1, n as int));
        }
        let mut p: usize = 0;
        while p < out.len() && entry_le_exec(&out[p], &x)
            invariant
                p <= out@.len(),
                forall|j: int| 0 <= j < p ==> entry_le(#[trigger] out@[j]@, x@),
            decreases out@.len() - p,
        {
            p = p + 1;
        }
        let ghost before = out@;
        proof {
            if p < out@.len() {
                assert(!entry_le(out@[p as int]@, x@));
                lemma_entry_total(out@[p as int]@, x@);
                assert forall|j: int| p <= j < before.len() implies !entry_le(#[trigger] before[j]@, x@) by {
                    if j > p && entry_le(before[j]@, x@) {
                        lemma_entry_trans(before[p as int]@, before[j]@, x@);
                    }
                }
            }
        }
        out.insert(p, x);
        proof {
            assert(out@ =~= before.insert(p as int, x));
            assert forall|i: int, j: int| 0 <= i < j < out@.len() implies entry_le(#[trigger] out@[i]@, #[trigger] out@[j]@) by {
                if j < p {
                    assert(out@[i] == before[i] && out@[j] == before[j]);
                } else if j == p {
                    assert(out@[i] == before[i]);
                } else if i == p {
                    assert(out@[j] == before[j - 1]);
                    if j - 1 > p {
                        lemma_entry_trans(x@, before[p as int]@, before[j - 1]@);
                    }
                } else if i < p {
                    assert(out@[i] == before[i] && out@[j] == before[j - 1]);
                } else {
                    assert(out@[i] == before[i - 1] && out@[j] == before[j - 1]);
                }
            }
            assert(entry_views(out@) =~= entry_views(before).insert(p as int, x@));
            vstd::seq_lib::to_multiset_insert(entry_views(before), p as int, x@);
            assert(entry_views(all.subrange(0, k + 1)) =~= entry_views(all.subrange(0, k as int)).push(x@));
            vstd::seq_lib::to_multiset_build(entry_views(all.subrange(0, k as int)), x@);
            assert forall|j: int| 0 <= j < p implies entry_le(#[trigger] entry_views(before)[j], x@) by {
                assert(entry_le(before[j]@, x@));
            }
            assert forall|j: int| p <= j < before.len() implies !entry_le(#[trigger] entry_views(before)[j], x@) by {
                assert(!entry_le(before[j]@, x@));
            }
            assert forall|e: FsEntryView| #[trigger] ties(entry_views(out@), e) == ties(
                entry_views(all.subrange(0, k + 1)),
                e,
            ) by {
                lemma_insert_keeps_ties(entry_views(before), p as int, x@, e);
                entry_views(all.subrange(0, k as int)).lemma_filter_push(x@, tied_with(e));
            }
        }
        k = k + 1;
    }
    proof {
        assert(all.subrange(0, n as int) =~= all);
    }
    out
}

/// The entries `.` and `..` that a directory lists for itself and its
/// parent; listings, downloads and removals skip them.
pub open spec fn is_dot_entry_seq(name: Seq<char>) -> bool {
    name == "."@ || name == ".."@
}

pub fn is_dot_entry(name: &str) -> (b: bool)
    ensures
        b == is_dot_entry_seq(name@),
{
    text::str_eq(name, ".") || text::str_eq(name, "..")
}

/// The entries of a remote directory, without `.` and `..`, with their paths
/// under `dir` and a missing size read as 0.
pub open spec fn listed_entries(dir: Seq<char>, raw: Seq<RemoteEntry>) -> Seq<FsEntryView>
    decreases raw.len(),
{
    if raw.len() == 0 {
        Seq::empty()
    } else {
        let prev = listed_entries(dir, raw.drop_last());
        let e = raw.last();
        if is_dot_entry_seq(e.name@) {
            prev
        } else {
            prev.push(
                FsEntryView {
                    name: e.name@,
                    path: posix_join_seq(dir, e.name@),
                    is_dir: e.is_dir,
                    size: match e.size {
                        Some(s) => s,
                        None => 0,
                    },
                    mtime: match e.mtime {
                        Some(t) => Some(t as i64),
                        None => None,
                    },
                    mode: e.permissions,
                },
            )
        }
    }
}

/// A listing of a remote directory: its entries without `.` and `..`, in
/// listing order, entries that sort level keeping the server's order.
pub fn remote_listing(dir: String, raw: Vec<RemoteEntry>) -> (l: FsListing)
    ensures
        l.path == dir,
        sorted_entries(l.entries@),
        entry_views(l.entries@).to_multiset() == listed_entries(dir@, raw@).to_multiset(),
        forall|e: FsEntryView| #[trigger] ties(entry_views(l.entries@), e) == ties(listed_entries(dir@, raw@), e),
{
    let ghost all = raw@;
    let mut rest = raw;
    let n = rest.len();
    let mut k: usize = 0;
    let mut entries: Vec<FsEntry> = Vec::new();
    proof {
        assert(rest@ =~= all.subrange(0, n as int));
        assert(all.subrange(0, 0) =~= Seq::<RemoteEntry>::empty());
        assert(entry_views(entries@) =~= Seq::<FsEntryView>::empty());
    }
    while rest.len() > 0
        invariant
            n == all.len(),
            rest@.len() + k == n,
            rest@ == all.subrange(k as int, n as int),
            entry_views(entries@) == listed_entries(dir@, all.subrange(0, k as int)),
        decreases rest@.len(),
    {
        let e = rest.remove(0);
        let ghost before = entries@;
        proof {
            assert(e == all[k as int]);
            assert(rest@ =~= all.subrange(k + 1, n as int));
            assert(all.subrange(0, k + 1).drop_last() =~= all.subrange(0, k as int));
        }
        if !is_dot_entry(e.name.as_str()) {
            let path = posix_join(dir.as_str(), e.name.as_str());
            let entry = FsEntry {
                name: e.name,
                path,
                is_dir: e.is_dir,
                size: match e.size {
                    Some(s) => s,
                    None => 0,
                },
                mtime: match e.mtime {
                    Some(t) => Some(t as i64),
                    None => None,
                },
                mode: e.permissions,
            };
            entries.push(entry);
            proof {
                assert(entry_views(entries@) =~= entry_views(before).push(entry@));
            }
        }
        k = k + 1;
    }
    proof {
        assert(all.subrange(0, n as int) =~= all);
    }
    let sorted = sort_entries(entries);
    FsListing { path: dir, entries: sorted }
}


/// The direction of a transfer.
#[derive(Debug, Clone, Copy, PartialEq, Eq, Structural)]
pub enum Direction {
    /// Upload: local to remote.
    Put,
    /// Download: remote to local.
    Get,
}

/// The direction a transfer request names: `put` or `get`.
pub fn transfer_direction(direction: &str) -> (r: Result<Direction, AppError>)
    ensures
        direction@ == "put"@ ==> r == Ok::<Direction, AppError>(Direction::Put),
        direction@ == "get"@ ==> r == Ok::<Direction, AppError>(Direction::Get),
        direction@ != "put"@ && direction@ != "get"@ ==> (r matches Err(e) && e is Msg && e.message_seq()
            == "unknown transfer direction: "@ + direction@),
{
    proof {
        reveal_strlit("put");
        reveal_strlit("get");
        assert("get"@[0] != "put"@[0]);
    }
    if text::str_eq(direction, "put") {
        Ok(Direction::Put)
    } else if text::str_eq(direction, "get") {
        Ok(Direction::Get)
    } else {
        let mut m = String::from_str("unknown transfer direction: ");
        m.append(direction);
        Err(AppError::Msg(m))
    }
}

/// The total reported with a progress event: never less than what is done.
pub fn progress_total(total: u64, done: u64) -> (r: u64)
    ensures
        r == (if total >= done {
            total
        } else {
            done
        }),
{
    if total >= done {
        total
    } else {
        done
    }
}

/// The last progress report of a transfer, as `(done, total, error)`: a
/// finished transfer reports 1 of 1, a cancelled one 1 of 1 with the error
/// `cancelled`, a failed one 0 of 1 with the failure's message.
pub fn final_progress(outcome: &Result<bool, AppError>) -> (r: (u64, u64, Option<String>))
    ensures
        match outcome {
            Ok(cancelled) => r.0 == 1 && r.1 == 1 && (if *cancelled {
                r.2 matches Some(m) && m@ == "cancelled"@
            } else {
                r.2 is None
            }),
            Err(e) => r.0 == 0 && r.1 == 1 && (r.2 matches Some(m) && m@ == e.message_seq()),
        },
{
    match outcome {
        Ok(cancelled) => {
            if *cancelled {
                (1, 1, Some(String::from_str("cancelled")))
            } else {
                (1, 1, None)
            }
        },
        Err(e) => (0, 1, Some(e.message())),
    }
}

/// A `~` path on this machine: the home directory itself, a path under it
/// (after every leading `~/`), or a path to take as it is.
#[derive(Debug)]
pub enum HomePath {
    Home,
    Under(String),
    AsIs,
}

/// How a key path is read: `~` is the home directory, `~/...` is under it.
pub fn home_relative(p: &str) -> (r: HomePath)
    ensures
        p@ == "~"@ ==> r is Home,
        p@ != "~"@ && text::has_prefix(p@, "~/"@) ==> (r matches HomePath::Under(rest) && rest@
            == strip_prefix_run(p@, "~/"@)),
        p@ != "~"@ && !text::has_prefix(p@, "~/"@) ==> r is AsIs,
{
    if text::str_eq(p, "~") {
        return HomePath::Home;
    }
    if text::starts_with(p, "~/") {
        return HomePath::Under(strip_tilde_slashes(p));
    }
    HomePath::AsIs
}

/// `s` without any leading run of `pat` (`str::trim_start_matches(pat)`).
pub open spec fn strip_prefix_run(s: Seq<char>, pat: Seq<char>) -> Seq<char>
    decreases s.len(),
{
    if pat.len() > 0 && text::has_prefix(s, pat) {
        strip_prefix_run(s.skip(pat.len() as int), pat)
    } else {
        s
    }
}

fn strip_tilde_slashes(p: &str) -> (r: String)
    ensures
        r@ == strip_prefix_run(p@, "~/"@),
{
    proof {
        reveal_strlit("~/");
        assert(p@.skip(0) =~= p@);
    }
    let n = p.unicode_len();
    let mut i: usize = 0;
    while i < n && n - i >= 2 && p.get_char(i) == '~' && p.get_char(i + 1) == '/'
        invariant
            n == p@.len(),
            i <= n,
            strip_prefix_run(p@, "~/"@) == strip_prefix_run(p@.skip(i as int), "~/"@),
        decreases n - i,
    {
        proof {
            reveal_strlit("~/");
            assert(p@.skip(i as int).subrange(0, 2) =~= "~/"@);
            assert(p@.skip(i as int).skip(2) =~= p@.skip(i + 2));
        }
        i = i + 2;
    }
    proof {
        let rest = p@.skip(i as int);
        if text::has_prefix(rest, "~/"@) {
            assert(rest[0] == "~/"@[0] && rest[1] == "~/"@[1]);
            assert(p@[i as int] == rest[0] && p@[i + 1] == rest[1]);
        }
    }
    String::from_str(p.substring_char(i, n))
}

/// `dirs::home_dir`, as text. Claims nothing: the result depends on the
/// environment.
#[verifier::external_body]
pub(crate) fn home_dir_text() -> (r: Option<String>)
{
    dirs::home_dir().map(|p| p.to_string_lossy().into_owned())
}

/// The home directory of this machine's user.
pub fn home_dir() -> (r: Result<String, AppError>)
    ensures
        r matches Err(e) ==> e is Msg && e.message_seq() == "cannot resolve home directory"@,
{
    match home_dir_text() {
        Some(h) => Ok(h),
        None => Err(AppError::msg("cannot resolve home directory")),
    }
}

/// The local directory that a listing request reads: the home directory for
/// a blank path.
pub fn local_list_dir(path: &str) -> (r: Result<String, AppError>)
    ensures
        trim_seq(path@).len() > 0 ==> (r matches Ok(d) && d@ == path@),
        trim_seq(path@).len() == 0 && r is Err ==> (r matches Err(e) && e is Msg && e.message_seq()
            == "cannot resolve home directory"@),
{
    if text::trim(path).unicode_len() == 0 {
        home_dir()
    } else {
        Ok(String::from_str(path))
    }
}

} // verus!
