//! The data model of a run: the canonical address of a remote source, the
//! fetchable assets a vendor resolves it to, and the options of a run.

use vstd::prelude::*;
use crate::errors::Error;
use crate::txt;
use crate::txt::{
    spec_trim_end_all, spec_trim_start_char, spec_last_segment, first_match_from,
    lemma_split_char_nonempty,
};
use crate::urls::{UrlParts, opt_view, parse_url, url_parsing, simple_https_url,
    simple_https_parts};

verus! {

/// The canonical parsed address of a remote source. `path` never includes
/// the subfolder: the two are split once, at the first `/-/` segment of
/// the URL path. `gref` comes only from a URL fragment.
#[derive(Debug, Clone)]
pub struct Location {
    pub url: String,
    pub domain: String,
    pub path: String,
    pub project: String,
    pub port: Option<u16>,
    pub query: Option<String>,
    pub subfolder: Option<String>,
    pub gref: Option<String>,
    pub username: String,
    pub password: Option<String>,
    pub is_git: bool,
}

/// The repository path and the subfolder, split once at the first `/-/`.
pub open spec fn spec_subfolder_split(p: Seq<char>) -> (Seq<char>, Option<Seq<char>>) {
    match first_match_from(p, "/-/"@, 0) {
        Some(i) => (p.take(i), Some(p.skip(i + "/-/"@.len()))),
        None => (p, None),
    }
}

/// The project name: the last `/`-separated segment of the repository
/// path, before any `.git` suffix is trimmed.
pub open spec fn spec_project_of(repo: Seq<char>) -> Seq<char> {
    spec_last_segment(repo, '/')
}

impl Location {
    /// Whether this location is the image of the given URL parts.
    pub open spec fn is_from_parts(&self, u: crate::urls::UrlView, is_git: bool) -> bool {
        let split = spec_subfolder_split(u.path);
        &&& self.url@ == u.serialized
        &&& self.domain@ == u.domain
        &&& self.path@ == spec_trim_end_all(split.0, ".git"@)
        &&& self.project@ == spec_project_of(split.0)
        &&& self.port == u.port
        &&& opt_view(self.query) == u.query
        &&& opt_view(self.subfolder) == split.1
        &&& opt_view(self.gref) == u.fragment
        &&& self.username@ == u.username
        &&& opt_view(self.password) == u.password
        &&& self.is_git == is_git
    }

    /// Create a logical `Location` from parsed URL parts. Fails only when
    /// no project name is derivable: the repository path's last segment
    /// is empty.
    pub fn from_parts(u: &UrlParts, is_git: bool) -> (r: Result<Location, Error>)
        ensures
            (r is Ok) == (spec_project_of(spec_subfolder_split(u@.path).0).len() > 0),
            r matches Ok(loc) ==> loc.is_from_parts(u@, is_git),
    {
        let path_chars = txt::to_chars(u.path.as_str());
        let delim = txt::to_chars("/-/");
        proof {
            reveal_strlit("/-/");
        }
        let (repo, subfolder): (Vec<char>, Option<String>) = match txt::find_from(
            &path_chars,
            &delim,
            0,
        ) {
            Some(i) => {
                proof {
                    txt::lemma_first_match_is_match(path_chars@, delim@, 0);
                }
                let mut rv: Vec<char> = txt::dup(&path_chars);
                rv.truncate(i);
                let mut sv: Vec<char> = Vec::new();
                let mut j: usize = i + 3;
                while j < path_chars.len()
                    invariant
                        i + 3 <= j <= path_chars.len(),
                        sv@ == path_chars@.subrange(i + 3, j as int),
                    decreases path_chars.len() - j,
                {
                    sv.push(path_chars[j]);
                    proof {
                        assert(path_chars@.subrange(i + 3, j + 1 as int) =~= path_chars@.subrange(
                            i + 3,
                            j as int,
                        ).push(path_chars@[j as int]));
                    }
                    j = j + 1;
                }
                proof {
                    assert(rv@ =~= path_chars@.take(i as int));
                    assert(sv@ =~= path_chars@.skip(i + 3));
                }
                (rv, Some(txt::chars_string(&sv)))
            },
            None => (txt::dup(&path_chars), None),
        };
        let segments_last = last_slash_segment(&repo);
        if segments_last.len() == 0 {
            let mut m = String::new();
            m.append("cannot find project name");
            return Err(Error::Resolution(m));
        }
        let git_suffix = txt::to_chars(".git");
        let trimmed = txt::trim_end_all(&repo, &git_suffix);
        Ok(Location {
            url: u.serialized.clone(),
            domain: u.domain.clone(),
            path: txt::chars_string(&trimmed),
            project: txt::chars_string(&segments_last),
            port: u.port,
            query: clone_opt(&u.query),
            subfolder,
            gref: clone_opt(&u.fragment),
            username: u.username.clone(),
            password: clone_opt(&u.password),
            is_git,
        })
    }

    /// Create a logical `Location` from a URL string, as the url crate
    /// parses it.
    pub fn from(url: &String, is_git: bool) -> (r: Result<Location, Error>)
        ensures
            r matches Ok(loc) ==> url_parsing(url@) matches Some(u) && loc.is_from_parts(
                u,
                is_git,
            ),
            simple_https_url(url@) ==> (r is Ok) == (spec_project_of(
                spec_subfolder_split(simple_https_parts(url@).path).0,
            ).len() > 0),
            simple_https_url(url@) ==> (r matches Ok(loc) ==> loc.is_from_parts(
                simple_https_parts(url@),
                is_git,
            )),
    {
        match parse_url(url) {
            Ok(parts) => Location::from_parts(&parts, is_git),
            Err(m) => {
                let mut msg = String::new();
                msg.append("cannot parse url: ");
                msg.append(m.as_str());
                Err(Error::Resolution(msg))
            },
        }
    }

    /// The ssh-style git remote for this location:
    /// `git@<domain>:<path without leading slashes>.git`.
    pub fn git_url(&self) -> (r: String)
        ensures
            r@ == "git@"@ + self.domain@ + ":"@ + spec_trim_start_char(self.path@, '/')
                + ".git"@,
    {
        let mut out: Vec<char> = txt::to_chars("git@");
        let mut domain = txt::to_chars(self.domain.as_str());
        let mut colon = txt::to_chars(":");
        let path_chars = txt::to_chars(self.path.as_str());
        let mut trimmed = txt::trim_start_char(&path_chars, '/');
        let mut suffix = txt::to_chars(".git");
        out.append(&mut domain);
        out.append(&mut colon);
        out.append(&mut trimmed);
        out.append(&mut suffix);
        txt::chars_string(&out)
    }

    /// The https web address for this location: `https://<domain><path>`.
    pub fn web_url(&self) -> (r: String)
        ensures
            r@ == "https://"@ + self.domain@ + self.path@,
    {
        let mut out: Vec<char> = txt::to_chars("https://");
        let mut domain = txt::to_chars(self.domain.as_str());
        let mut path_chars = txt::to_chars(self.path.as_str());
        out.append(&mut domain);
        out.append(&mut path_chars);
        txt::chars_string(&out)
    }
}

pub(crate) fn clone_opt(o: &Option<String>) -> (r: Option<String>)
    ensures
        opt_view(r) == opt_view(*o),
{
    match o {
        Some(s) => Some(s.clone()),
        None => None,
    }
}

/// The last `/`-separated segment of `t`.
fn last_slash_segment(t: &Vec<char>) -> (r: Vec<char>)
    ensures
        r@ == spec_last_segment(t@, '/'),
{
    let slash = txt::to_chars("/");
    proof {
        reveal_strlit("/");
    }
    let n = t.len();
    let start: usize = match last_slash_from(t) {
        Some(i) => i + 1,
        None => 0,
    };
    let mut r: Vec<char> = Vec::new();
    let mut j: usize = start;
    while j < t.len()
        invariant
            start <= j <= t.len(),
            r@ == t@.subrange(start as int, j as int),
        decreases t.len() - j,
    {
        r.push(t[j]);
        proof {
            assert(t@.subrange(start as int, j + 1 as int) =~= t@.subrange(
                start as int,
                j as int,
            ).push(t@[j as int]));
        }
        j = j + 1;
    }
    proof {
        if start == 0 {
            assert(r@ =~= t@);
            lemma_last_segment_no_slash(t@);
        } else {
            assert(r@ =~= t@.skip(start as int));
            lemma_last_segment_after_slash(t@, start - 1);
        }
    }
    r
}

/// Position of the last `/` in `t`, if any.
fn last_slash_from(t: &Vec<char>) -> (r: Option<usize>)
    ensures
        r matches Some(i) ==> i < t@.len() && t@[i as int] == '/' && (forall|j: int|
            i < j < t@.len() ==> t@[j] != '/'),
        r is None ==> forall|j: int| 0 <= j < t@.len() ==> t@[j] != '/',
{
    let mut k: usize = t.len();
    while k > 0
        invariant
            k <= t@.len(),
            forall|j: int| k <= j < t@.len() ==> t@[j] != '/',
        decreases k,
    {
        k = k - 1;
        if t[k] == '/' {
            return Some(k);
        }
    }
    None
}

proof fn lemma_split_no_slash(t: Seq<char>)
    requires
        forall|j: int| 0 <= j < t.len() ==> t[j] != '/',
    ensures
        crate::txt::spec_split_char(t, '/') == seq![t],
    decreases t.len(),
{
    if t.len() == 0 {
        assert(crate::txt::spec_split_char(t, '/') =~~= seq![t]);
    } else {
        lemma_split_no_slash(t.skip(1));
        assert(seq![t[0]] + t.skip(1) =~= t);
        assert(crate::txt::spec_split_char(t, '/') =~~= seq![t]);
    }
}

proof fn lemma_last_segment_no_slash(t: Seq<char>)
    requires
        forall|j: int| 0 <= j < t.len() ==> t[j] != '/',
    ensures
        spec_last_segment(t, '/') == t,
{
    lemma_split_no_slash(t);
}

proof fn lemma_last_segment_after_slash(t: Seq<char>, i: int)
    requires
        0 <= i < t.len(),
        t[i] == '/',
        forall|j: int| i < j < t.len() ==> t[j] != '/',
    ensures
        spec_last_segment(t, '/') == t.skip(i + 1),
    decreases t.len(),
{
    lemma_split_char_nonempty(t, '/');
    if i == 0 {
        assert(t[0] == '/');
        lemma_last_segment_no_slash(t.skip(1));
        lemma_split_char_nonempty(t.skip(1), '/');
    } else {
        lemma_last_segment_after_slash(t.skip(1), i - 1);
        lemma_split_char_nonempty(t.skip(1), '/');
        assert(t.skip(1).skip(i) =~= t.skip(i + 1));
        if t[0] != '/' {
            txt::lemma_split_char_len2(t.skip(1), '/', i - 1);
        }
    }
}

/// A downloadable archive of the source and how to find its root after
/// extraction.
#[derive(Debug, Clone)]
pub struct Archive {
    pub url: String,
    pub root: ArchiveRoot,
}

/// How to locate the effective source directory inside an extracted
/// archive.
#[derive(Debug, Clone)]
pub enum ArchiveRoot {
    /// A fixed folder name under the extracted root.
    Folder(String),
    /// The single entry inside the extracted root.
    FirstFolder,
    /// The extracted root itself.
    Whole,
}

/// The fetchable forms of a location: an archive, a git remote, or both.
#[derive(Debug, Clone)]
pub struct Assets {
    pub archive: Option<Archive>,
    pub git: Option<String>,
}

/// What to do when a destination file already exists.
#[derive(Debug, Clone)]
pub enum Overwrite {
    Ask,
    Always,
    Never,
}

/// Whether a run materializes into a fresh location or applies into an
/// existing folder.
#[derive(Debug, Clone, PartialEq, Eq, Structural)]
pub enum CopyMode {
    Copy,
    Apply,
    All,
}

/// The options of a run.
#[derive(Debug, Clone)]
pub struct Opts {
    pub show_progress: bool,
    pub overwrite: bool,
    pub mode: CopyMode,
    pub is_git: bool,
    pub no_cache: bool,
    pub always_yes: bool,
    pub remote: Option<String>,
}

} // verus!
