//! URL splitting. The url crate does the parsing; the library holds the
//! parts as plain values. For a restricted "simple" shape of https URL —
//! the shape the resolver itself composes from a vendor base and a slug —
//! the split is also pinned down exactly, so that resolution of composed
//! links is fully specified.

use vstd::prelude::*;
use crate::txt::{first_match_from, spec_split_char, spec_last_segment};

verus! {

/// The parts of a parsed URL, as plain values.
pub struct UrlParts {
    pub serialized: String,
    pub domain: String,
    pub path: String,
    pub port: Option<u16>,
    pub query: Option<String>,
    pub fragment: Option<String>,
    pub username: String,
    pub password: Option<String>,
}

/// The mathematical image of a `UrlParts` value.
pub struct UrlView {
    pub serialized: Seq<char>,
    pub domain: Seq<char>,
    pub path: Seq<char>,
    pub port: Option<u16>,
    pub query: Option<Seq<char>>,
    pub fragment: Option<Seq<char>>,
    pub username: Seq<char>,
    pub password: Option<Seq<char>>,
}

pub open spec fn opt_view(o: Option<String>) -> Option<Seq<char>> {
    match o {
        Some(s) => Some(s@),
        None => None,
    }
}

impl View for UrlParts {
    type V = UrlView;

    open spec fn view(&self) -> UrlView {
        UrlView {
            serialized: self.serialized@,
            domain: self.domain@,
            path: self.path@,
            port: self.port,
            query: opt_view(self.query),
            fragment: opt_view(self.fragment),
            username: self.username@,
            password: opt_view(self.password),
        }
    }
}

/// What url::Url::parse makes of a string: a function of the string alone.
pub uninterp spec fn url_parsing(s: Seq<char>) -> Option<UrlView>;

pub open spec fn spec_lower_char(c: char) -> bool {
    'a' <= c && c <= 'z'
}

pub open spec fn spec_digit_char(c: char) -> bool {
    '0' <= c && c <= '9'
}

pub open spec fn spec_domain_char(c: char) -> bool {
    spec_lower_char(c) || spec_digit_char(c) || c == '.' || c == '-'
}

/// Characters that the url crate keeps verbatim in a path or fragment.
pub open spec fn spec_plain_char(c: char) -> bool {
    spec_lower_char(c) || spec_digit_char(c) || ('A' <= c && c <= 'Z') || c == '.' || c == '-'
        || c == '_' || c == '~' || c == '/'
}

/// A host label that the URL standard reads as a number, which would make
/// the host an IP address instead of a domain.
pub open spec fn spec_numeric_label(l: Seq<char>) -> bool {
    (forall|i: int| 0 <= i < l.len() ==> spec_digit_char(#[trigger] l[i])) || (l.len() >= 2 && l[0]
        == '0' && l[1] == 'x')
}

/// A host label with hyphens in its third and fourth places: the encoded
/// (punycode) shape, which the host parser decodes or rejects instead of
/// keeping verbatim.
pub open spec fn spec_encoded_label(l: Seq<char>) -> bool {
    l.len() >= 4 && l[2] == '-' && l[3] == '-'
}

/// A lowercase dotted host that the url crate keeps as a domain, verbatim:
/// non-empty labels of plain domain characters, the last not numeric (that
/// would make an IP address), none in the encoded shape.
pub open spec fn spec_simple_host(h: Seq<char>) -> bool {
    let labels = spec_split_char(h, '.');
    &&& h.len() > 0
    &&& forall|i: int| 0 <= i < h.len() ==> spec_domain_char(#[trigger] h[i])
    &&& forall|k: int|
        0 <= k < labels.len() ==> (#[trigger] labels[k]).len() > 0 && !spec_encoded_label(
            labels[k],
        )
    &&& !spec_numeric_label(labels.last())
}

/// A path (with its leading slash) that the url crate keeps verbatim:
/// no empty segments, no `.` or `..` segments, only plain characters.
pub open spec fn spec_simple_path(p: Seq<char>) -> bool {
    let segs = spec_split_char(p.skip(1), '/');
    &&& p.len() >= 2
    &&& p[0] == '/'
    &&& forall|i: int| 0 <= i < p.len() ==> spec_plain_char(#[trigger] p[i])
    &&& forall|k: int|
        0 <= k < segs.len() ==> (#[trigger] segs[k]).len() > 0 && segs[k] != "."@ && segs[k]
            != ".."@
}

pub open spec fn spec_simple_frag(f: Seq<char>) -> bool {
    forall|i: int| 0 <= i < f.len() ==> spec_plain_char(#[trigger] f[i])
}

/// An https URL of the restricted shape whose parse this module pins down:
/// `https://` then a simple host, then a simple path, then an optional
/// `#fragment` of plain characters.
pub open spec fn simple_https_url(s: Seq<char>) -> bool {
    let pre = "https://"@;
    &&& s.len() > pre.len()
    &&& s.take(pre.len() as int) == pre
    &&& {
        let after = s.skip(pre.len() as int);
        match first_match_from(after, seq!['/'], 0) {
            Some(k) => {
                let host = after.take(k);
                let rest = after.skip(k);
                &&& spec_simple_host(host)
                &&& match first_match_from(rest, seq!['#'], 0) {
                    Some(f) => spec_simple_path(rest.take(f)) && spec_simple_frag(
                        rest.skip(f + 1),
                    ),
                    None => spec_simple_path(rest),
                }
            },
            None => false,
        }
    }
}

/// The parts of a simple https URL: the structural split of the string.
pub open spec fn simple_https_parts(s: Seq<char>) -> UrlView {
    let pre = "https://"@;
    let after = s.skip(pre.len() as int);
    let k = first_match_from(after, seq!['/'], 0)->Some_0;
    let host = after.take(k);
    let rest = after.skip(k);
    let split = match first_match_from(rest, seq!['#'], 0) {
        Some(f) => (rest.take(f), Some(rest.skip(f + 1))),
        None => (rest, None),
    };
    UrlView {
        serialized: s,
        domain: host,
        path: split.0,
        port: None,
        query: None,
        fragment: split.1,
        username: Seq::empty(),
        password: None,
    }
}

/// Relies on url::Url::parse and its accessors (to_string, domain, path,
/// port, query, fragment, username, password): the split of a URL string
/// into its parts, a function of the string alone. For the simple https
/// shape above, the crate succeeds, keeps host, path and fragment
/// verbatim, and serializes back to the same string.
#[verifier::external_body]
pub(crate) fn parse_url(s: &String) -> (r: Result<UrlParts, String>)
    ensures
        (r is Ok) == (url_parsing(s@) is Some),
        r matches Ok(p) ==> url_parsing(s@) == Some(p@),
        r matches Ok(p) ==> (simple_https_url(s@) ==> p@ == simple_https_parts(s@)),
        r is Err ==> !simple_https_url(s@),
{
    match url::Url::parse(s) {
        Ok(u) => Ok(UrlParts {
            serialized: u.to_string(),
            domain: u.domain().unwrap_or_default().to_string(),
            path: u.path().to_string(),
            port: u.port(),
            query: u.query().map(str::to_string),
            fragment: u.fragment().map(str::to_string),
            username: u.username().to_string(),
            password: u.password().map(str::to_string),
        }),
        Err(e) => Err(e.to_string()),
    }
}

} // verus!
