//! The vendor strategies: a closed set of remote hosts, each turning a
//! location and a remote ref list into fetchable assets — an archive URL
//! with its extraction root, and an ssh-style git remote as fallback.

use vstd::prelude::*;
use crate::config::{CustomVendor, VendorsConfig, spec_keyed_find};
use crate::data::{Archive, ArchiveRoot, Assets, Location};
use crate::errors::Error;
use crate::git::{RemoteInfo, spec_first_suffix, spec_first_head, spec_first_default, select_ref,
    lemma_first_head_in_range, lemma_first_suffix_in_range, lemma_first_default_in_range,
    clone_remote};
use crate::txt;
use crate::txt::{spec_trim_start_char, spec_splice};
use crate::urls::opt_view;

verus! {

/// The closed set of vendor kinds.
#[derive(Debug, Clone, Copy, PartialEq, Eq, Structural)]
pub enum VendorKind {
    Github,
    Gist,
    Gitlab,
    Bitbucket,
    Local,
}

#[derive(Debug, Clone)]
pub struct Github {
    pub base: String,
}

#[derive(Debug, Clone)]
pub struct GithubGist {
    pub base: String,
}

#[derive(Debug, Clone)]
pub struct Gitlab {
    pub base: String,
}

#[derive(Debug, Clone)]
pub struct BitBucket {
    pub base: String,
}

#[derive(Debug, Clone)]
pub struct LocalGit {}

impl Github {
    pub fn new(base: Option<&str>) -> (r: Github)
        ensures
            r.base@ == match base {
                Some(b) => b@,
                None => "github.com"@,
            },
    {
        Github { base: base_or(base, "github.com") }
    }
}

impl GithubGist {
    pub fn new(base: Option<&str>) -> (r: GithubGist)
        ensures
            r.base@ == match base {
                Some(b) => b@,
                None => "gist.github.com"@,
            },
    {
        GithubGist { base: base_or(base, "gist.github.com") }
    }
}

impl Gitlab {
    pub fn new(base: Option<&str>) -> (r: Gitlab)
        ensures
            r.base@ == match base {
                Some(b) => b@,
                None => "gitlab.com"@,
            },
    {
        Gitlab { base: base_or(base, "gitlab.com") }
    }
}

impl BitBucket {
    pub fn new(base: Option<&str>) -> (r: BitBucket)
        ensures
            r.base@ == match base {
                Some(b) => b@,
                None => "bitbucket.org"@,
            },
    {
        BitBucket { base: base_or(base, "bitbucket.org") }
    }
}

fn base_or(base: Option<&str>, dflt: &str) -> (r: String)
    ensures
        r@ == match base {
            Some(b) => b@,
            None => dflt@,
        },
{
    match base {
        Some(b) => {
            let v = txt::to_chars(b);
            txt::chars_string(&v)
        },
        None => {
            let v = txt::to_chars(dflt);
            txt::chars_string(&v)
        },
    }
}

/// The ssh-style git remote every vendor offers as fallback:
/// `git@<base>:<path without leading slashes>.git`.
pub open spec fn spec_git_remote(base: Seq<char>, path: Seq<char>) -> Seq<char> {
    "git@"@ + base + ":"@ + spec_trim_start_char(path, '/') + ".git"@
}

/// A github or gist archive address: `https://<base><path>/archive/<ref>.tar.gz`.
pub open spec fn spec_github_archive(base: Seq<char>, path: Seq<char>, gref: Seq<char>) -> Seq<
    char,
> {
    "https://"@ + base + path + "/archive/"@ + gref + ".tar.gz"@
}

/// A bitbucket archive address: `https://<base><path>/get/<ref>.tar.gz`.
pub open spec fn spec_bitbucket_archive(base: Seq<char>, path: Seq<char>, gref: Seq<char>) -> Seq<
    char,
> {
    "https://"@ + base + path + "/get/"@ + gref + ".tar.gz"@
}

/// A gitlab archive address:
/// `https://<base><path>/-/archive/<ref>/<project>-<ref with / as ->.tar.gz`.
pub open spec fn spec_gitlab_archive(
    base: Seq<char>,
    path: Seq<char>,
    gref: Seq<char>,
    project: Seq<char>,
) -> Seq<char> {
    "https://"@ + base + path + "/-/archive/"@ + gref + "/"@ + project + "-"@ + spec_splice(
        gref,
        seq!['/'],
        seq!['-'],
    ) + ".tar.gz"@
}

/// The ref a vendor picks from the remote's list: the named one, or the
/// default branch.
pub open spec fn spec_selected_ref(refs: Seq<RemoteInfo>, gref: Option<Seq<char>>) -> Option<
    Seq<char>,
> {
    match gref {
        Some(g) => match spec_first_suffix(refs, g) {
            Some(i) => Some(refs[i].ref_@),
            None => None,
        },
        None => match spec_first_head(refs) {
            None => None,
            Some(h) => match spec_first_default(refs, refs[h].revision@) {
                Some(d) => Some(refs[d].ref_@),
                None => None,
            },
        },
    }
}

/// A vendor strategy: its base domain, and the assets it resolves a
/// location to. Every strategy in this crate also states its exact
/// behaviour on its own resolver method.
pub trait Vendor {
    fn base(&self) -> &str;

    fn resolve(&self, location: &Location, refs: &Vec<RemoteInfo>) -> Result<Assets, Error>;
}

impl Vendor for Github {
    fn base(&self) -> &str {
        self.base.as_str()
    }

    fn resolve(&self, location: &Location, refs: &Vec<RemoteInfo>) -> Result<Assets, Error> {
        self.assets(location, refs)
    }
}

impl Vendor for GithubGist {
    fn base(&self) -> &str {
        self.base.as_str()
    }

    fn resolve(&self, location: &Location, refs: &Vec<RemoteInfo>) -> Result<Assets, Error> {
        self.assets(location, refs)
    }
}

impl Vendor for Gitlab {
    fn base(&self) -> &str {
        self.base.as_str()
    }

    fn resolve(&self, location: &Location, refs: &Vec<RemoteInfo>) -> Result<Assets, Error> {
        self.assets(location, refs)
    }
}

impl Vendor for BitBucket {
    fn base(&self) -> &str {
        self.base.as_str()
    }

    fn resolve(&self, location: &Location, refs: &Vec<RemoteInfo>) -> Result<Assets, Error> {
        self.assets(location, refs)
    }
}

impl Vendor for LocalGit {
    fn base(&self) -> &str {
        "file"
    }

    fn resolve(&self, location: &Location, refs: &Vec<RemoteInfo>) -> Result<Assets, Error> {
        self.assets(location, refs)
    }
}

impl Github {
    /// A tarball of the selected ref under `/archive/`, with the single
    /// top folder as extraction root, and the ssh remote as fallback.
    pub fn assets(&self, location: &Location, refs: &Vec<RemoteInfo>) -> (r: Result<Assets, Error>)
        ensures
            match spec_selected_ref(refs@, opt_view(location.gref)) {
                Some(gname) => r matches Ok(a) && (a.archive matches Some(ar) && ar.url@
                    == spec_github_archive(self.base@, location.path@, gname) && ar.root
                    is FirstFolder) && (a.git matches Some(g) && g@ == spec_git_remote(
                    self.base@,
                    location.path@,
                )),
                None => r matches Err(e) && e is RemoteRef,
            },
    {
        match select_ref(refs, &location.gref) {
            Err(e) => {
                proof {
                    selected_ref_lemmas(refs@, opt_view(location.gref));
                }
                Err(e)
            },
            Ok(ri) => {
                proof {
                    selected_ref_lemmas(refs@, opt_view(location.gref));
                }
                let mut url: Vec<char> = txt::to_chars("https://");
                let mut base = txt::to_chars(self.base.as_str());
                let mut path = txt::to_chars(location.path.as_str());
                let mut mid = txt::to_chars("/archive/");
                let mut gref = txt::to_chars(ri.ref_.as_str());
                let mut tail = txt::to_chars(".tar.gz");
                url.append(&mut base);
                url.append(&mut path);
                url.append(&mut mid);
                url.append(&mut gref);
                url.append(&mut tail);
                Ok(
                    Assets {
                        archive: Some(
                            Archive {
                                url: txt::chars_string(&url),
                                root: ArchiveRoot::FirstFolder,
                            },
                        ),
                        git: Some(git_remote_of(&self.base, &location.path)),
                    },
                )
            },
        }
    }
}

impl BitBucket {
    /// A tarball of the selected ref under `/get/`, with the single top
    /// folder as extraction root, and the ssh remote as fallback.
    pub fn assets(&self, location: &Location, refs: &Vec<RemoteInfo>) -> (r: Result<Assets, Error>)
        ensures
            match spec_selected_ref(refs@, opt_view(location.gref)) {
                Some(gname) => r matches Ok(a) && (a.archive matches Some(ar) && ar.url@
                    == spec_bitbucket_archive(self.base@, location.path@, gname) && ar.root
                    is FirstFolder) && (a.git matches Some(g) && g@ == spec_git_remote(
                    self.base@,
                    location.path@,
                )),
                None => r matches Err(e) && e is RemoteRef,
            },
    {
        match select_ref(refs, &location.gref) {
            Err(e) => {
                proof {
                    selected_ref_lemmas(refs@, opt_view(location.gref));
                }
                Err(e)
            },
            Ok(ri) => {
                proof {
                    selected_ref_lemmas(refs@, opt_view(location.gref));
                }
                let mut url: Vec<char> = txt::to_chars("https://");
                let mut base = txt::to_chars(self.base.as_str());
                let mut path = txt::to_chars(location.path.as_str());
                let mut mid = txt::to_chars("/get/");
                let mut gref = txt::to_chars(ri.ref_.as_str());
                let mut tail = txt::to_chars(".tar.gz");
                url.append(&mut base);
                url.append(&mut path);
                url.append(&mut mid);
                url.append(&mut gref);
                url.append(&mut tail);
                Ok(
                    Assets {
                        archive: Some(
                            Archive {
                                url: txt::chars_string(&url),
                                root: ArchiveRoot::FirstFolder,
                            },
                        ),
                        git: Some(git_remote_of(&self.base, &location.path)),
                    },
                )
            },
        }
    }
}

impl Gitlab {
    /// A tarball under `/-/archive/`, named after the project and the ref
    /// with slashes dashed, with the single top folder as extraction root.
    pub fn assets(&self, location: &Location, refs: &Vec<RemoteInfo>) -> (r: Result<Assets, Error>)
        ensures
            match spec_selected_ref(refs@, opt_view(location.gref)) {
                Some(gname) => r matches Ok(a) && (a.archive matches Some(ar) && ar.url@
                    == spec_gitlab_archive(self.base@, location.path@, gname, location.project@)
                    && ar.root is FirstFolder) && (a.git matches Some(g) && g@ == spec_git_remote(
                    self.base@,
                    location.path@,
                )),
                None => r matches Err(e) && e is RemoteRef,
            },
    {
        match select_ref(refs, &location.gref) {
            Err(e) => {
                proof {
                    selected_ref_lemmas(refs@, opt_view(location.gref));
                }
                Err(e)
            },
            Ok(ri) => {
                proof {
                    selected_ref_lemmas(refs@, opt_view(location.gref));
                }
                let gref = txt::to_chars(ri.ref_.as_str());
                let slash = txt::to_chars("/");
                let dash = txt::to_chars("-");
                proof {
                    reveal_strlit("/");
                    reveal_strlit("-");
                    assert(slash@ =~= seq!['/']);
                    assert(dash@ =~= seq!['-']);
                }
                let mut dashed = txt::replace_all(&gref, &slash, &dash);
                let mut url: Vec<char> = txt::to_chars("https://");
                let mut base = txt::to_chars(self.base.as_str());
                let mut path = txt::to_chars(location.path.as_str());
                let mut mid = txt::to_chars("/-/archive/");
                let mut gref2 = txt::to_chars(ri.ref_.as_str());
                let mut sep = txt::to_chars("/");
                let mut project = txt::to_chars(location.project.as_str());
                let mut hyphen = txt::to_chars("-");
                let mut tail = txt::to_chars(".tar.gz");
                url.append(&mut base);
                url.append(&mut path);
                url.append(&mut mid);
                url.append(&mut gref2);
                url.append(&mut sep);
                url.append(&mut project);
                url.append(&mut hyphen);
                url.append(&mut dashed);
                url.append(&mut tail);
                Ok(
                    Assets {
                        archive: Some(
                            Archive {
                                url: txt::chars_string(&url),
                                root: ArchiveRoot::FirstFolder,
                            },
                        ),
                        git: Some(git_remote_of(&self.base, &location.path)),
                    },
                )
            },
        }
    }
}

impl GithubGist {
    /// A tarball of the `HEAD` ref's name under `/archive/`, with the
    /// single top folder as extraction root.
    pub fn assets(&self, location: &Location, refs: &Vec<RemoteInfo>) -> (r: Result<Assets, Error>)
        ensures
            match spec_first_head(refs@) {
                Some(h) => r matches Ok(a) && (a.archive matches Some(ar) && ar.url@
                    == spec_github_archive(self.base@, location.path@, refs@[h].ref_@) && ar.root
                    is FirstFolder) && (a.git matches Some(g) && g@ == spec_git_remote(
                    self.base@,
                    location.path@,
                )),
                None => r matches Err(e) && e is RemoteRef,
            },
    {
        let head = find_head_entry(refs);
        match head {
            None => {
                let mut m = String::new();
                m.append("no HEAD ref found");
                Err(Error::RemoteRef(m))
            },
            Some(ri) => {
                proof {
                    lemma_first_head_in_range(refs@);
                }
                let mut url: Vec<char> = txt::to_chars("https://");
                let mut base = txt::to_chars(self.base.as_str());
                let mut path = txt::to_chars(location.path.as_str());
                let mut mid = txt::to_chars("/archive/");
                let mut gref = txt::to_chars(ri.ref_.as_str());
                let mut tail = txt::to_chars(".tar.gz");
                url.append(&mut base);
                url.append(&mut path);
                url.append(&mut mid);
                url.append(&mut gref);
                url.append(&mut tail);
                Ok(
                    Assets {
                        archive: Some(
                            Archive {
                                url: txt::chars_string(&url),
                                root: ArchiveRoot::FirstFolder,
                            },
                        ),
                        git: Some(git_remote_of(&self.base, &location.path)),
                    },
                )
            },
        }
    }
}

impl LocalGit {
    /// No archive: the location's own URL is the git remote.
    pub fn assets(&self, location: &Location, _refs: &Vec<RemoteInfo>) -> (r: Result<
        Assets,
        Error,
    >)
        ensures
            r matches Ok(a) && a.archive is None && (a.git matches Some(g) && g@
                == location.url@),
    {
        Ok(Assets { archive: None, git: Some(location.url.clone()) })
    }
}

/// The `HEAD` entry of a ref list, if any.
fn find_head_entry(refs: &Vec<RemoteInfo>) -> (r: Option<RemoteInfo>)
    ensures
        match spec_first_head(refs@) {
            Some(h) => r matches Some(ri) && 0 <= h < refs@.len() && ri == refs@[h],
            None => r is None,
        },
{
    let mut j: usize = 0;
    proof {
        assert(refs@.skip(0) =~= refs@);
    }
    while j < refs.len()
        invariant
            j <= refs@.len(),
            match spec_first_head(refs@.skip(j as int)) {
                Some(i) => spec_first_head(refs@) == Some(i + j),
                None => spec_first_head(refs@) is None,
            },
        decreases refs@.len() - j,
    {
        proof {
            assert(refs@.skip(j as int)[0] == refs@[j as int]);
            assert(refs@.skip(j as int).skip(1) =~= refs@.skip(j + 1));
        }
        if txt::str_equal(refs[j].ref_.as_str(), "HEAD") {
            return Some(clone_remote(&refs[j]));
        }
        j = j + 1;
    }
    proof {
        assert(refs@.skip(refs@.len() as int) =~= Seq::<RemoteInfo>::empty());
    }
    None
}

/// Bounds for whichever search `spec_selected_ref` took.
proof fn selected_ref_lemmas(refs: Seq<RemoteInfo>, gref: Option<Seq<char>>)
    ensures
        match gref {
            Some(g) => spec_first_suffix(refs, g) matches Some(i) ==> 0 <= i < refs.len(),
            None => (spec_first_head(refs) matches Some(h) ==> 0 <= h < refs.len() && (
            spec_first_default(refs, refs[h].revision@) matches Some(d) ==> 0 <= d < refs.len())),
        },
{
    match gref {
        Some(g) => {
            if spec_first_suffix(refs, g) is Some {
                lemma_first_suffix_in_range(refs, g);
            }
        },
        None => {
            if spec_first_head(refs) is Some {
                lemma_first_head_in_range(refs);
                let h = spec_first_head(refs)->Some_0;
                if spec_first_default(refs, refs[h].revision@) is Some {
                    lemma_first_default_in_range(refs, refs[h].revision@);
                }
            }
        },
    }
}

/// The ssh-style fallback remote, built from a base and a path.
fn git_remote_of(base: &String, path: &String) -> (r: String)
    ensures
        r@ == spec_git_remote(base@, path@),
{
    let mut out: Vec<char> = txt::to_chars("git@");
    let mut b = txt::to_chars(base.as_str());
    let mut colon = txt::to_chars(":");
    let path_chars = txt::to_chars(path.as_str());
    let mut trimmed = txt::trim_start_char(&path_chars, '/');
    let mut suffix = txt::to_chars(".git");
    out.append(&mut b);
    out.append(&mut colon);
    out.append(&mut trimmed);
    out.append(&mut suffix);
    txt::chars_string(&out)
}

/// One resolved vendor strategy, dispatched by an exhaustive match.
#[derive(Debug, Clone)]
pub enum ResolvedVendor {
    Github(Github),
    Gist(GithubGist),
    Gitlab(Gitlab),
    Bitbucket(BitBucket),
    Local(LocalGit),
}

impl ResolvedVendor {
    pub open spec fn kind(&self) -> VendorKind {
        match self {
            ResolvedVendor::Github(_) => VendorKind::Github,
            ResolvedVendor::Gist(_) => VendorKind::Gist,
            ResolvedVendor::Gitlab(_) => VendorKind::Gitlab,
            ResolvedVendor::Bitbucket(_) => VendorKind::Bitbucket,
            ResolvedVendor::Local(_) => VendorKind::Local,
        }
    }

    pub open spec fn spec_base(&self) -> Seq<char> {
        match self {
            ResolvedVendor::Github(v) => v.base@,
            ResolvedVendor::Gist(v) => v.base@,
            ResolvedVendor::Gitlab(v) => v.base@,
            ResolvedVendor::Bitbucket(v) => v.base@,
            ResolvedVendor::Local(_) => "file"@,
        }
    }

    /// The base domain this vendor was configured with.
    pub fn base(&self) -> (r: &str)
        ensures
            r@ == self.spec_base(),
    {
        match self {
            ResolvedVendor::Github(v) => v.base.as_str(),
            ResolvedVendor::Gist(v) => v.base.as_str(),
            ResolvedVendor::Gitlab(v) => v.base.as_str(),
            ResolvedVendor::Bitbucket(v) => v.base.as_str(),
            ResolvedVendor::Local(_) => "file",
        }
    }

    /// Whether resolving this vendor needs the remote's ref list.
    pub fn needs_refs(&self) -> (r: bool)
        ensures
            r == !(self.kind() is Local),
    {
        match self {
            ResolvedVendor::Local(_) => false,
            _ => true,
        }
    }

    /// The assets of a location under this vendor, by exhaustive dispatch.
    pub fn assets_of(&self, location: &Location, refs: &Vec<RemoteInfo>) -> (r: Result<
        Assets,
        Error,
    >)
        ensures
            match self {
                ResolvedVendor::Github(v) => match spec_selected_ref(
                    refs@,
                    opt_view(location.gref),
                ) {
                    Some(gname) => r matches Ok(a) && (a.archive matches Some(ar) && ar.url@
                        == spec_github_archive(v.base@, location.path@, gname) && ar.root
                        is FirstFolder) && (a.git matches Some(g) && g@ == spec_git_remote(
                        v.base@,
                        location.path@,
                    )),
                    None => r matches Err(e) && e is RemoteRef,
                },
                ResolvedVendor::Bitbucket(v) => match spec_selected_ref(
                    refs@,
                    opt_view(location.gref),
                ) {
                    Some(gname) => r matches Ok(a) && (a.archive matches Some(ar) && ar.url@
                        == spec_bitbucket_archive(v.base@, location.path@, gname) && ar.root
                        is FirstFolder) && (a.git matches Some(g) && g@ == spec_git_remote(
                        v.base@,
                        location.path@,
                    )),
                    None => r matches Err(e) && e is RemoteRef,
                },
                ResolvedVendor::Gitlab(v) => match spec_selected_ref(
                    refs@,
                    opt_view(location.gref),
                ) {
                    Some(gname) => r matches Ok(a) && (a.archive matches Some(ar) && ar.url@
                        == spec_gitlab_archive(v.base@, location.path@, gname, location.project@)
                        && ar.root is FirstFolder) && (a.git matches Some(g) && g@
                        == spec_git_remote(v.base@, location.path@)),
                    None => r matches Err(e) && e is RemoteRef,
                },
                ResolvedVendor::Gist(v) => match spec_first_head(refs@) {
                    Some(h) => r matches Ok(a) && (a.archive matches Some(ar) && ar.url@
                        == spec_github_archive(v.base@, location.path@, refs@[h].ref_@) && ar.root
                        is FirstFolder) && (a.git matches Some(g) && g@ == spec_git_remote(
                        v.base@,
                        location.path@,
                    )),
                    None => r matches Err(e) && e is RemoteRef,
                },
                ResolvedVendor::Local(_) => r matches Ok(a) && a.archive is None && (
                a.git matches Some(g) && g@ == location.url@),
            },
    {
        match self {
            ResolvedVendor::Github(v) => v.assets(location, refs),
            ResolvedVendor::Gist(v) => v.assets(location, refs),
            ResolvedVendor::Gitlab(v) => v.assets(location, refs),
            ResolvedVendor::Bitbucket(v) => v.assets(location, refs),
            ResolvedVendor::Local(v) => v.assets(location, refs),
        }
    }
}

/// Which vendor kind a table token names.
pub open spec fn spec_token_kind(t: Seq<char>) -> Option<VendorKind> {
    if t == "gh"@ || t == "github.com"@ || t == "github"@ {
        Some(VendorKind::Github)
    } else if t == "gist.github.com"@ || t == "gist"@ {
        Some(VendorKind::Gist)
    } else if t == "gl"@ || t == "gitlab.com"@ || t == "gitlab"@ {
        Some(VendorKind::Gitlab)
    } else if t == "bb"@ || t == "bitbucket.org"@ || t == "bitbucket"@ {
        Some(VendorKind::Bitbucket)
    } else {
        None
    }
}

/// The base a table entry resolves to: the given one, or the kind's own
/// default domain.
pub open spec fn spec_kind_base(k: VendorKind, base: Option<Seq<char>>) -> Seq<char> {
    match base {
        Some(b) => b,
        None => match k {
            VendorKind::Github => "github.com"@,
            VendorKind::Gist => "gist.github.com"@,
            VendorKind::Gitlab => "gitlab.com"@,
            VendorKind::Bitbucket => "bitbucket.org"@,
            VendorKind::Local => "file"@,
        },
    }
}

/// The vendor table: the default vendor and named custom prefixes.
pub struct Vendors<'a> {
    pub config: Option<&'a VendorsConfig>,
}

impl<'a> Vendors<'a> {
    pub fn new(config: Option<&'a VendorsConfig>) -> (r: Vendors<'a>)
        ensures
            r.config == config,
    {
        Vendors { config }
    }

    /// The token and override base that a prefix resolves to: the empty
    /// prefix takes the configured default vendor or github; a named
    /// prefix takes its custom entry, or stands for itself.
    pub open spec fn spec_choice(&self, vendor: Seq<char>) -> (Seq<char>, Option<Seq<char>>) {
        if vendor.len() == 0 {
            match self.config {
                Some(cfg) => match cfg.vendors_default {
                    Some(cv) => (cv.kind@, Some(cv.base@)),
                    None => ("github"@, Some("github.com"@)),
                },
                None => ("github"@, Some("github.com"@)),
            }
        } else {
            match self.config {
                Some(cfg) => match spec_keyed_find(cfg.custom@, vendor) {
                    Some(i) => (cfg.custom@[i].1.kind@, Some(cfg.custom@[i].1.base@)),
                    None => (vendor, None),
                },
                None => (vendor, None),
            }
        }
    }

    /// Looks a vendor prefix up: the configured or built-in table entry,
    /// or an unknown-vendor error.
    pub fn lookup(&self, vendor: &String) -> (r: Result<ResolvedVendor, Error>)
        ensures
            ({
                let choice = self.spec_choice(vendor@);
                match spec_token_kind(choice.0) {
                    Some(k) => r matches Ok(v) && v.kind() == k && v.spec_base()
                        == spec_kind_base(k, choice.1),
                    None => r matches Err(e) && e is Resolution,
                }
            }),
    {
        if vendor.as_str().is_empty() {
            match self.config {
                Some(cfg) => match &cfg.vendors_default {
                    Some(cv) => Self::lookup_table(&cv.kind, Some(&cv.base)),
                    None => {
                        let mut gh = String::new();
                        gh.append("github");
                        let mut base = String::new();
                        base.append("github.com");
                        Self::lookup_table(&gh, Some(&base))
                    },
                },
                None => {
                    let mut gh = String::new();
                    gh.append("github");
                    let mut base = String::new();
                    base.append("github.com");
                    Self::lookup_table(&gh, Some(&base))
                },
            }
        } else {
            match self.config {
                Some(cfg) => match crate::config::keyed_get(&cfg.custom, vendor) {
                    Some(cv) => Self::lookup_table(&cv.kind, Some(&cv.base)),
                    None => Self::lookup_table(vendor, None),
                },
                None => Self::lookup_table(vendor, None),
            }
        }
    }

    /// The built-in token table: aliases and domains of the four hosted
    /// vendors, each with its default base domain.
    pub fn lookup_table(token: &String, base: Option<&String>) -> (r: Result<ResolvedVendor, Error>)
        ensures
            match spec_token_kind(token@) {
                Some(k) => r matches Ok(v) && v.kind() == k && v.spec_base() == spec_kind_base(
                    k,
                    match base {
                        Some(b) => Some(b@),
                        None => None,
                    },
                ),
                None => r matches Err(e) && e is Resolution,
            },
    {
        let base_str: Option<&str> = match base {
            Some(b) => Some(b.as_str()),
            None => None,
        };
        let t = token.as_str();
        if txt::str_equal(t, "gh") || txt::str_equal(t, "github.com") || txt::str_equal(
            t,
            "github",
        ) {
            Ok(ResolvedVendor::Github(Github::new(base_str)))
        } else if txt::str_equal(t, "gist.github.com") || txt::str_equal(t, "gist") {
            Ok(ResolvedVendor::Gist(GithubGist::new(base_str)))
        } else if txt::str_equal(t, "gl") || txt::str_equal(t, "gitlab.com") || txt::str_equal(
            t,
            "gitlab",
        ) {
            Ok(ResolvedVendor::Gitlab(Gitlab::new(base_str)))
        } else if txt::str_equal(t, "bb") || txt::str_equal(t, "bitbucket.org") || txt::str_equal(
            t,
            "bitbucket",
        ) {
            Ok(ResolvedVendor::Bitbucket(BitBucket::new(base_str)))
        } else {
            let mut m = String::new();
            m.append("no vendor found for: ");
            m.append(token.as_str());
            Err(Error::Resolution(m))
        }
    }
}

} // verus!
