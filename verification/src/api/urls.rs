//! URLs by their serialization, through the `url` crate, and the
//! `application/x-www-form-urlencoded` byte serializer.
use vstd::prelude::*;

verus! {

/// Parsing `s`: the serialization of the URL it yields, or the parser's message.
pub uninterp spec fn spec_url_parse(s: Seq<char>) -> Result<Seq<char>, Seq<char>>;

/// The scheme of a URL.
pub uninterp spec fn spec_url_scheme(u: Seq<char>) -> Seq<char>;

/// A URL after `Url::set_scheme` (unchanged when the switch is refused).
pub uninterp spec fn spec_url_set_scheme(u: Seq<char>, scheme: Seq<char>) -> Seq<char>;

/// A URL after `Url::set_path`.
pub uninterp spec fn spec_url_set_path(u: Seq<char>, path: Seq<char>) -> Seq<char>;

/// A URL after `Url::set_query(None)`.
pub uninterp spec fn spec_url_clear_query(u: Seq<char>) -> Seq<char>;

/// A URL after `Url::set_fragment(None)`.
pub uninterp spec fn spec_url_clear_fragment(u: Seq<char>) -> Seq<char>;

/// A URL after appending one form-encoded pair to its query.
pub uninterp spec fn spec_url_append_pair(u: Seq<char>, key: Seq<char>, value: Seq<char>) -> Seq<char>;

/// The form-decoded (key, value) pairs of a URL's query.
pub uninterp spec fn spec_url_query_pairs(u: Seq<char>) -> Seq<(Seq<char>, Seq<char>)>;

/// `u` is the serialization of a URL: it parses back to itself.
pub open spec fn is_url_text(u: Seq<char>) -> bool {
    spec_url_parse(u) == Ok::<Seq<char>, Seq<char>>(u)
}

/// `Url::parse` followed by its serialization, or the `ParseError`'s message.
/// Claims: the result is the named one, and a serialization parses back to
/// itself (the WHATWG URL standard makes serialization idempotent).
#[verifier::external_body]
pub(crate) fn url_parse(s: &str) -> (r: Result<String, String>)
    ensures
        match r {
            Ok(u) => spec_url_parse(s@) == Ok::<Seq<char>, Seq<char>>(u@) && is_url_text(u@),
            Err(m) => spec_url_parse(s@) == Err::<Seq<char>, Seq<char>>(m@),
        },
{
    match url::Url::parse(s) {
        Ok(u) => Ok(u.to_string()),
        Err(e) => Err(e.to_string()),
    }
}

/// `Url::scheme`. Claims: the result is the named scheme.
#[verifier::external_body]
pub(crate) fn url_scheme(u: &str) -> (r: String)
    requires
        is_url_text(u@),
    ensures
        r@ == spec_url_scheme(u@),
{
    url::Url::parse(u).expect("a URL serialization parses").scheme().to_string()
}

/// `Url::set_scheme`, keeping the URL when the switch is refused. Claims: the
/// result is the named URL.
#[verifier::external_body]
pub(crate) fn url_set_scheme(u: &str, scheme: &str) -> (r: String)
    requires
        is_url_text(u@),
    ensures
        r@ == spec_url_set_scheme(u@, scheme@),
        is_url_text(r@),
{
    let mut x = url::Url::parse(u).expect("a URL serialization parses");
    let _ = x.set_scheme(scheme);
    x.to_string()
}

/// `Url::set_path`. Claims: the result is the named URL.
#[verifier::external_body]
pub(crate) fn url_set_path(u: &str, path: &str) -> (r: String)
    requires
        is_url_text(u@),
    ensures
        r@ == spec_url_set_path(u@, path@),
        is_url_text(r@),
{
    let mut x = url::Url::parse(u).expect("a URL serialization parses");
    x.set_path(path);
    x.to_string()
}

/// `Url::set_query(None)`. Claims: the result is the named URL.
#[verifier::external_body]
pub(crate) fn url_clear_query(u: &str) -> (r: String)
    requires
        is_url_text(u@),
    ensures
        r@ == spec_url_clear_query(u@),
        is_url_text(r@),
{
    let mut x = url::Url::parse(u).expect("a URL serialization parses");
    x.set_query(None);
    x.to_string()
}

/// `Url::set_fragment(None)`. Claims: the result is the named URL.
#[verifier::external_body]
pub(crate) fn url_clear_fragment(u: &str) -> (r: String)
    requires
        is_url_text(u@),
    ensures
        r@ == spec_url_clear_fragment(u@),
        is_url_text(r@),
{
    let mut x = url::Url::parse(u).expect("a URL serialization parses");
    x.set_fragment(None);
    x.to_string()
}

/// `Url::query_pairs_mut().append_pair`. Claims: the result is the named URL.
#[verifier::external_body]
pub(crate) fn url_append_pair(u: &str, key: &str, value: &str) -> (r: String)
    requires
        is_url_text(u@),
    ensures
        r@ == spec_url_append_pair(u@, key@, value@),
        is_url_text(r@),
{
    let mut x = url::Url::parse(u).expect("a URL serialization parses");
    x.query_pairs_mut().append_pair(key, value);
    x.to_string()
}

/// `Url::query_pairs`, decoded into owned strings. Claims: the result is the
/// named list of pairs.
#[verifier::external_body]
pub(crate) fn url_query_pairs(u: &str) -> (r: Vec<(String, String)>)
    requires
        is_url_text(u@),
    ensures
        pair_views(r@) == spec_url_query_pairs(u@),
{
    url::Url::parse(u)
        .expect("a URL serialization parses")
        .query_pairs()
        .map(|(k, v)| (k.into_owned(), v.into_owned()))
        .collect()
}

/// Pairs of strings by their characters.
pub open spec fn pair_views(v: Seq<(String, String)>) -> Seq<(Seq<char>, Seq<char>)> {
    v.map_values(|p: (String, String)| (p.0@, p.1@))
}

/// A byte that the form serializer passes through: ASCII alphanumerics and `*-._`.
pub open spec fn form_unreserved(b: u8) -> bool {
    b == 0x2a || b == 0x2d || b == 0x2e || (0x30 <= b && b <= 0x39) || (0x41 <= b && b <= 0x5a)
        || b == 0x5f || (0x61 <= b && b <= 0x7a)
}

/// Upper-case hexadecimal digit.
pub open spec fn hex_upper(d: u8) -> char {
    "0123456789ABCDEF"@[d as int]
}

/// The form encoding of one byte: itself, `+` for a space, or `%XX`.
pub open spec fn form_encode_byte(b: u8) -> Seq<char> {
    if form_unreserved(b) {
        seq![b as char]
    } else if b == 0x20 {
        seq!['+']
    } else {
        seq!['%', hex_upper(b / 16), hex_upper(b % 16)]
    }
}

/// `application/x-www-form-urlencoded` serialization of bytes.
pub open spec fn form_encode(bytes: Seq<u8>) -> Seq<char>
    decreases bytes.len(),
{
    if bytes.len() == 0 {
        Seq::empty()
    } else {
        form_encode(bytes.drop_last()) + form_encode_byte(bytes.last())
    }
}

/// `url::form_urlencoded::byte_serialize`, collected. Claims: unreserved bytes
/// pass through, a space becomes `+`, every other byte `%XX` in upper case.
#[verifier::external_body]
pub(crate) fn form_urlencode(bytes: &[u8]) -> (r: String)
    ensures
        r@ == form_encode(bytes@),
{
    url::form_urlencoded::byte_serialize(bytes).collect()
}

} // verus!
