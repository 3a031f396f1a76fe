//! The shortlink resolver: an operator string expanded, in priority
//! order, as a full https URL, an existing local path, a `git@host:path`
//! form, a `vendor:path` prefix, or a bare path under the default vendor.

use vstd::prelude::*;
use crate::config::{Config, ProjectSetupActions, spec_keyed_find};
use crate::data::{Assets, Location, spec_subfolder_split, spec_project_of};
use crate::errors::Error;
use crate::fsio::FsIo;
use crate::git::{GitProvider, RemoteInfo};
use crate::swap::Swap;
use crate::txt;
use crate::txt::{first_match_from, spec_starts_with};
use crate::urls::{url_parsing, simple_https_url, simple_https_parts};
use crate::vendors::{ResolvedVendor, Vendors, spec_token_kind, spec_kind_base};

verus! {

/// The `git@<domain>:<path>` form: the shortest non-empty domain before a
/// colon, and a non-empty remainder.
pub open spec fn spec_git_shortlink(s: Seq<char>) -> Option<(Seq<char>, Seq<char>)> {
    if spec_starts_with(s, "git@"@) {
        let rest = s.skip("git@"@.len() as int);
        match first_match_from(rest, seq![':'], 1) {
            Some(i) => if i + 1 < rest.len() {
                Some((rest.take(i), rest.skip(i + 1)))
            } else {
                None
            },
            None => None,
        }
    } else {
        None
    }
}

/// A character a vendor prefix may hold.
pub open spec fn spec_prefix_char(c: char) -> bool {
    ('a' <= c && c <= 'z') || ('A' <= c && c <= 'Z') || ('0' <= c && c <= '9') || c == '_' || c
        == '-'
}

/// How many leading characters of `s` a vendor prefix could cover.
pub open spec fn spec_prefix_run(s: Seq<char>) -> int
    decreases s.len(),
{
    if s.len() == 0 || !spec_prefix_char(s[0]) {
        0
    } else {
        1 + spec_prefix_run(s.skip(1))
    }
}

/// The `<vendor-prefix>:<path>` form: a non-empty run of prefix
/// characters, a colon, and a non-empty remainder.
pub open spec fn spec_vendor_shortlink(s: Seq<char>) -> Option<(Seq<char>, Seq<char>)> {
    let k = spec_prefix_run(s);
    if k >= 1 && k + 1 < s.len() && s[k] == ':' {
        Some((s.take(k), s.skip(k + 1)))
    } else {
        None
    }
}

/// The URL string a vendor base and a slug compose to.
pub open spec fn spec_composed(base: Seq<char>, slug: Seq<char>) -> Seq<char> {
    "https://"@ + base + "/"@ + slug
}

/// What expansion yields for a composed URL: for the simple https shape
/// the location is pinned exactly; otherwise it is whatever the url crate
/// parsed.
pub open spec fn spec_expanded_location(composed: Seq<char>, loc: Location, is_git: bool) -> bool {
    &&& (match url_parsing(composed) {
        Some(u) => loc.is_from_parts(u, is_git),
        None => false,
    })
    &&& (simple_https_url(composed) ==> loc.is_from_parts(simple_https_parts(composed), is_git))
}

/// Expands a shortlink into a vendor and a location. The branch order:
/// a full https URL; an existing local path (the probe is handed in);
/// `git@domain:path`, promoted to https with git transport forced;
/// `vendor:path` through the vendor table; a bare path under the default
/// vendor.
pub fn expand<'v>(
    shortlink: &String,
    is_git: bool,
    vendors: &Vendors<'v>,
    is_local_path: bool,
) -> (r: Result<(ResolvedVendor, Location), Error>)
    ensures
        spec_starts_with(shortlink@, "https://"@) ==> (r matches Ok(p) ==> (
        url_parsing(shortlink@) matches Some(u) && p.1.is_from_parts(u, is_git) && u.domain.len()
            > 0 && p.0.kind() == spec_token_kind(vendors.spec_choice(u.domain).0)->Some_0)),
        !spec_starts_with(shortlink@, "https://"@) && is_local_path ==> (r matches Ok(p) ==> (
        p.0.kind() is Local && p.1.is_git == true && (url_parsing(
            "file://"@ + shortlink@ + ".git"@,
        ) matches Some(u) && p.1.is_from_parts(u, true)))),
        (!spec_starts_with(shortlink@, "https://"@) && !is_local_path && spec_git_shortlink(
            shortlink@,
        ) is Some) ==> ({
            let gp = spec_git_shortlink(shortlink@)->Some_0;
            let choice = vendors.spec_choice(gp.0);
            match spec_token_kind(choice.0) {
                None => r matches Err(e) && e is Resolution,
                Some(k) => r matches Ok(p) ==> p.0.kind() == k && p.0.spec_base()
                    == spec_kind_base(k, choice.1) && p.1.is_git == true
                    && spec_expanded_location(spec_composed(gp.0, gp.1), p.1, true),
            }
        }),
        (!spec_starts_with(shortlink@, "https://"@) && !is_local_path && spec_git_shortlink(
            shortlink@,
        ) is None && spec_vendor_shortlink(shortlink@) is Some) ==> ({
            let pv = spec_vendor_shortlink(shortlink@)->Some_0;
            let choice = vendors.spec_choice(pv.0);
            match spec_token_kind(choice.0) {
                None => r matches Err(e) && e is Resolution,
                Some(k) => {
                    let base = spec_kind_base(k, choice.1);
                    let composed = spec_composed(base, pv.1);
                    &&& (r matches Ok(p) ==> p.0.kind() == k && p.0.spec_base() == base
                        && spec_expanded_location(composed, p.1, is_git))
                    &&& (simple_https_url(composed) ==> ((r is Ok) == (spec_project_of(
                        spec_subfolder_split(simple_https_parts(composed).path).0,
                    ).len() > 0)))
                },
            }
        }),
        (!spec_starts_with(shortlink@, "https://"@) && !is_local_path && spec_git_shortlink(
            shortlink@,
        ) is None && spec_vendor_shortlink(shortlink@) is None) ==> ({
            let choice = vendors.spec_choice(Seq::<char>::empty());
            match spec_token_kind(choice.0) {
                None => r matches Err(e) && e is Resolution,
                Some(k) => {
                    let base = spec_kind_base(k, choice.1);
                    let composed = spec_composed(base, shortlink@);
                    &&& (r matches Ok(p) ==> p.0.kind() == k && p.0.spec_base() == base
                        && spec_expanded_location(composed, p.1, is_git))
                    &&& (simple_https_url(composed) ==> ((r is Ok) == (spec_project_of(
                        spec_subfolder_split(simple_https_parts(composed).path).0,
                    ).len() > 0)))
                },
            }
        }),
{
    let link_chars = txt::to_chars(shortlink.as_str());
    let https_prefix = txt::to_chars("https://");
    if txt::starts_with(&link_chars, &https_prefix) {
        let parts = match crate::urls::parse_url(shortlink) {
            Ok(parts) => parts,
            Err(m) => {
                let mut msg = String::new();
                msg.append("cannot parse url: ");
                msg.append(m.as_str());
                return Err(Error::Resolution(msg));
            },
        };
        if parts.domain.as_str().is_empty() {
            let mut msg = String::new();
            msg.append("domain is missing");
            return Err(Error::Resolution(msg));
        }
        let vendor = match vendors.lookup(&parts.domain) {
            Ok(v) => v,
            Err(e) => {
                return Err(e);
            },
        };
        let location = match Location::from_parts(&parts, is_git) {
            Ok(loc) => loc,
            Err(e) => {
                return Err(e);
            },
        };
        Ok((vendor, location))
    } else if is_local_path {
        let mut url = String::new();
        url.append("file://");
        url.append(shortlink.as_str());
        url.append(".git");
        let location = match Location::from(&url, true) {
            Ok(loc) => loc,
            Err(e) => {
                return Err(e);
            },
        };
        Ok((ResolvedVendor::Local(crate::vendors::LocalGit {  }), location))
    } else {
        let git_prefix = txt::to_chars("git@");
        let colon = txt::to_chars(":");
        proof {
            reveal_strlit("git@");
            reveal_strlit(":");
            assert(colon@ =~= seq![':']);
        }
        let mut git_split: Option<(String, String)> = None;
        if txt::starts_with(&link_chars, &git_prefix) {
            let mut rest: Vec<char> = Vec::new();
            let mut i: usize = 4;
            while i < link_chars.len()
                invariant
                    4 <= i <= link_chars@.len(),
                    rest@ == link_chars@.subrange(4, i as int),
                decreases link_chars@.len() - i,
            {
                rest.push(link_chars[i]);
                proof {
                    assert(link_chars@.subrange(4, i + 1 as int) =~= link_chars@.subrange(
                        4,
                        i as int,
                    ).push(link_chars@[i as int]));
                }
                i = i + 1;
            }
            proof {
                assert(rest@ =~= link_chars@.skip(4));
            }
            if rest.len() >= 1 {
                match txt::find_from(&rest, &colon, 1) {
                    Some(ci) => {
                        proof {
                            txt::lemma_first_match_is_match(rest@, colon@, 1);
                        }
                        if ci + 1 < rest.len() {
                            let mut dv = txt::dup(&rest);
                            dv.truncate(ci);
                            let mut pv: Vec<char> = Vec::new();
                            let mut j: usize = ci + 1;
                            while j < rest.len()
                                invariant
                                    ci + 1 <= j <= rest@.len(),
                                    pv@ == rest@.subrange(ci + 1, j as int),
                                decreases rest@.len() - j,
                            {
                                pv.push(rest[j]);
                                proof {
                                    assert(rest@.subrange(ci + 1, j + 1 as int) =~= rest@.subrange(
                                        ci + 1,
                                        j as int,
                                    ).push(rest@[j as int]));
                                }
                                j = j + 1;
                            }
                            proof {
                                assert(dv@ =~= rest@.take(ci as int));
                                assert(pv@ =~= rest@.skip(ci + 1));
                            }
                            git_split = Some((txt::chars_string(&dv), txt::chars_string(&pv)));
                        }
                    },
                    None => {},
                }
            } else {
                proof {
                    assert(first_match_from(rest@, seq![':'], 1) is None);
                }
            }
        }
        match git_split {
            Some((domain, path)) => {
                let vendor = match vendors.lookup(&domain) {
                    Ok(v) => v,
                    Err(e) => {
                        return Err(e);
                    },
                };
                let url = compose_url(&domain, &path);
                let location = match Location::from(&url, true) {
                    Ok(loc) => loc,
                    Err(e) => {
                        return Err(e);
                    },
                };
                Ok((vendor, location))
            },
            None => {
                let run = prefix_run(&link_chars);
                let vendor_split: Option<(String, String)> = if run >= 1 && run
                    < link_chars.len() && link_chars.len() - run > 1 && link_chars[run] == ':' {
                    let mut pv = txt::dup(&link_chars);
                    pv.truncate(run);
                    let mut sv: Vec<char> = Vec::new();
                    let mut j: usize = run + 1;
                    while j < link_chars.len()
                        invariant
                            run + 1 <= j <= link_chars@.len(),
                            sv@ == link_chars@.subrange(run + 1, j as int),
                        decreases link_chars@.len() - j,
                    {
                        sv.push(link_chars[j]);
                        proof {
                            assert(link_chars@.subrange(run + 1, j + 1 as int)
                                =~= link_chars@.subrange(run + 1, j as int).push(
                                link_chars@[j as int],
                            ));
                        }
                        j = j + 1;
                    }
                    proof {
                        assert(pv@ =~= link_chars@.take(run as int));
                        assert(sv@ =~= link_chars@.skip(run + 1));
                    }
                    Some((txt::chars_string(&pv), txt::chars_string(&sv)))
                } else {
                    None
                };
                match vendor_split {
                    Some((prefix, slug)) => {
                        let vendor = match vendors.lookup(&prefix) {
                            Ok(v) => v,
                            Err(e) => {
                                return Err(e);
                            },
                        };
                        let base = base_string(&vendor);
                        let url = compose_url(&base, &slug);
                        let location = match Location::from(&url, is_git) {
                            Ok(loc) => loc,
                            Err(e) => {
                                return Err(e);
                            },
                        };
                        Ok((vendor, location))
                    },
                    None => {
                        let empty = String::new();
                        let vendor = match vendors.lookup(&empty) {
                            Ok(v) => v,
                            Err(e) => {
                                return Err(e);
                            },
                        };
                        let base = base_string(&vendor);
                        let url = compose_url(&base, shortlink);
                        let location = match Location::from(&url, is_git) {
                            Ok(loc) => loc,
                            Err(e) => {
                                return Err(e);
                            },
                        };
                        Ok((vendor, location))
                    },
                }
            },
        }
    }
}

/// The base of a resolved vendor, as an owned string.
fn base_string(v: &ResolvedVendor) -> (r: String)
    ensures
        r@ == v.spec_base(),
{
    let b = v.base();
    let chars = txt::to_chars(b);
    txt::chars_string(&chars)
}

/// `https://` + base + `/` + slug.
fn compose_url(base: &String, slug: &String) -> (r: String)
    ensures
        r@ == spec_composed(base@, slug@),
{
    let mut out: Vec<char> = txt::to_chars("https://");
    let mut b = txt::to_chars(base.as_str());
    let mut sep = txt::to_chars("/");
    let mut s = txt::to_chars(slug.as_str());
    out.append(&mut b);
    out.append(&mut sep);
    out.append(&mut s);
    txt::chars_string(&out)
}

/// The length of the leading vendor-prefix run.
fn prefix_run(s: &Vec<char>) -> (r: usize)
    ensures
        r == spec_prefix_run(s@),
        r <= s@.len(),
{
    let mut i: usize = 0;
    proof {
        assert(s@.skip(0) =~= s@);
    }
    while i < s.len() && is_prefix_char(s[i])
        invariant
            i <= s@.len(),
            spec_prefix_run(s@) == i + spec_prefix_run(s@.skip(i as int)),
            forall|j: int| 0 <= j < i ==> spec_prefix_char(#[trigger] s@[j]),
        decreases s@.len() - i,
    {
        proof {
            assert(s@.skip(i as int)[0] == s@[i as int]);
            assert(s@.skip(i as int).skip(1) =~= s@.skip(i + 1));
        }
        i = i + 1;
    }
    proof {
        if i < s@.len() {
            assert(s@.skip(i as int)[0] == s@[i as int]);
        } else {
            assert(s@.skip(i as int).len() == 0);
        }
    }
    i
}

fn is_prefix_char(c: char) -> (r: bool)
    ensures
        r == spec_prefix_char(c),
{
    ('a' <= c && c <= 'z') || ('A' <= c && c <= 'Z') || ('0' <= c && c <= '9') || c == '_' || c
        == '-'
}

/// The link and transport flag a resolution actually expands: a
/// configured project shortcut replaces both, anything else passes
/// through as given.
pub open spec fn spec_effective_link(config: Config, shortlink: Seq<char>, is_git: bool) -> (
    Seq<char>,
    bool,
) {
    match spec_keyed_find(config.projects@, shortlink) {
        Some(i) => (
            config.projects@[i].1.shortlink@,
            match config.projects@[i].1.is_git {
                Some(b) => b,
                None => false,
            },
        ),
        None => (shortlink, is_git),
    }
}

/// Resolution of an operator shortlink against the configuration and a
/// git provider: a canonical location and its fetchable assets.
pub struct Shortlink<'a, G: GitProvider> {
    pub config: &'a Config,
    pub git: &'a G,
}

impl<'a, G: GitProvider> Shortlink<'a, G> {
    pub fn new(config: &'a Config, git: &'a G) -> (r: Shortlink<'a, G>)
        ensures
            r.config == config,
    {
        Shortlink { config, git }
    }

    /// Resolves a shortlink: a configured project shortcut replaces the
    /// link and the git flag first; the link expands to a vendor and
    /// location; the vendor turns the remote's refs into assets. Every
    /// vendor strategy populates at least one fetchable form; an
    /// effective link that is a full URL yields its parsed location.
    /// The other expansion branches hinge on the local-path probe, whose
    /// answer is the file system's; `expand` states each of them exactly
    /// for every value of it.
    pub fn resolve<F: FsIo>(&self, shortlink: &String, is_git: bool, fs: &F) -> (r: Result<
        (Location, Assets),
        Error,
    >)
        ensures
            r matches Ok(p) ==> (p.1.archive is Some || p.1.git is Some),
            ({
                let eff = spec_effective_link(*self.config, shortlink@, is_git);
                spec_starts_with(eff.0, "https://"@) ==> (r matches Ok(p) ==> (url_parsing(
                    eff.0,
                ) matches Some(u) && p.0.is_from_parts(u, eff.1) && u.domain.len() > 0))
            }),
    {
        let (link, use_git): (String, bool) = match self.config.project(shortlink) {
            Some(project) => (
                project.shortlink.clone(),
                match project.is_git {
                    Some(b) => b,
                    None => false,
                },
            ),
            None => (shortlink.clone(), is_git),
        };
        let vendors = Vendors::new(self.config.vendors.as_ref());
        let is_local = fs.path_exists(&link);
        let (vendor, location) = match expand(&link, use_git, &vendors, is_local) {
            Ok(p) => p,
            Err(e) => {
                return Err(e);
            },
        };
        let refs: Vec<RemoteInfo> = if vendor.needs_refs() {
            match self.git.ls_remote(&location) {
                Ok(refs) => refs,
                Err(e) => {
                    return Err(e);
                },
            }
        } else {
            Vec::new()
        };
        match vendor.assets_of(&location, &refs) {
            Ok(assets) => Ok((location, assets)),
            Err(e) => Err(e),
        }
    }

    /// The configured actions of a project shortcut, if any.
    pub fn actions(&self, shortlink: &String) -> (r: Option<&'a Vec<crate::actions::Action>>)
        ensures
            match spec_keyed_find(self.config.projects@, shortlink@) {
                Some(i) => match self.config.projects@[i].1.actions {
                    Some(list) => r matches Some(rl) && *rl == list,
                    None => r is None,
                },
                None => r is None,
            },
    {
        match self.config.project(shortlink) {
            Some(project) => project.actions.as_ref(),
            None => None,
        }
    }

    /// The configured swaps of a project shortcut, if any.
    pub fn swaps(&self, shortlink: &String) -> (r: Option<&'a Vec<Swap>>)
        ensures
            match spec_keyed_find(self.config.projects@, shortlink@) {
                Some(i) => match self.config.projects@[i].1.swaps {
                    Some(list) => r matches Some(rl) && *rl == list,
                    None => r is None,
                },
                None => r is None,
            },
    {
        match self.config.project(shortlink) {
            Some(project) => project.swaps.as_ref(),
            None => None,
        }
    }

    /// The actions and swaps a project shortcut sets up, if configured.
    pub fn setup_actions(&self, shortlink: &String) -> (r: Option<ProjectSetupActions>)
        ensures
            (r is Some) == (spec_keyed_find(self.config.projects@, shortlink@) is Some),
            r matches Some(ps) ==> (match spec_keyed_find(self.config.projects@, shortlink@) {
                Some(i) => ((ps.actions is Some) == (self.config.projects@[i].1.actions is Some))
                    && ((ps.swaps is Some) == (self.config.projects@[i].1.swaps is Some)),
                None => false,
            }),
    {
        match self.config.project(shortlink) {
            Some(project) => Some(
                ProjectSetupActions {
                    actions: clone_actions(&project.actions),
                    swaps: clone_swaps(&project.swaps),
                    use_camp: project.use_camp,
                },
            ),
            None => None,
        }
    }
}

fn clone_actions(a: &Option<Vec<crate::actions::Action>>) -> (r: Option<
    Vec<crate::actions::Action>,
>)
    ensures
        (r is Some) == (*a is Some),
{
    match a {
        Some(list) => Some(list.clone()),
        None => None,
    }
}

fn clone_swaps(s: &Option<Vec<Swap>>) -> (r: Option<Vec<Swap>>)
    ensures
        (r is Some) == (*s is Some),
{
    match s {
        Some(list) => Some(list.clone()),
        None => None,
    }
}

} // verus!
