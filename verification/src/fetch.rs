//! The fetcher: a local directory for a location — a shallow git clone
//! into an ephemeral folder, or a TTL-cached archive download with its
//! extraction root resolved.

use vstd::prelude::*;
use crate::content::{path_join, spec_path_join};
use crate::data::{Archive, ArchiveRoot, Assets, Location};
use crate::errors::Error;
use crate::git::GitProvider;

verus! {

/// How long a cached archive stays fresh, in seconds: a day, or nothing
/// at all when the cache is bypassed.
pub fn cache_ttl(no_cache: bool) -> (r: u64)
    ensures
        r == if no_cache {
            0u64
        } else {
            86400u64
        },
{
    if no_cache {
        0
    } else {
        60 * 60 * 24
    }
}

/// Relies on tempfile::tempdir: a fresh path under the system temporary
/// directory. The directory itself is dropped at once, so the clone that
/// follows creates it; the path depends on the machine.
#[verifier::external_body]
fn ephemeral_dir() -> (r: Result<String, String>)
{
    match tempfile::tempdir() {
        Ok(d) => Ok(d.path().to_string_lossy().to_string()),
        Err(e) => Err(e.to_string()),
    }
}

/// Relies on cached_path::Cache::cached_path_with_options with extraction:
/// downloads the archive unless a cache entry younger than the freshness
/// lifetime exists, extracts it, and returns the extraction directory.
/// Depends on the network, the cache directory and the clock.
#[verifier::external_body]
fn fetch_archive_cached(cache_dir: &String, url: &String, ttl_secs: u64) -> (r: Result<
    String,
    String,
>)
{
    let cache = cached_path::Cache::builder().dir(
        std::path::PathBuf::from(cache_dir),
    ).freshness_lifetime(ttl_secs).connect_timeout(
        std::time::Duration::from_secs(3),
    ).build().map_err(|e| e.to_string())?;
    cache.cached_path_with_options(url, &cached_path::Options::default().extract()).map(
        |p| p.to_string_lossy().to_string(),
    ).map_err(|e| e.to_string())
}

/// Relies on walkdir::WalkDir at depth one: the first entry inside the
/// extracted directory. Depends on the disk.
#[verifier::external_body]
fn first_entry(dir: &String) -> (r: Result<String, String>)
{
    match walkdir::WalkDir::new(dir).min_depth(1).max_depth(1).into_iter().next() {
        Some(Ok(e)) => Ok(e.path().to_string_lossy().to_string()),
        Some(Err(e)) => Err(e.to_string()),
        None => Err("no entry found in extracted archive".to_string()),
    }
}

/// Obtains a local directory for a location and its assets: a shallow
/// clone for git locations, a cached archive download otherwise.
pub struct Fetcher<'a, G: GitProvider> {
    pub git: &'a G,
    pub cache_path: &'a String,
}

impl<'a, G: GitProvider> Fetcher<'a, G> {
    pub fn new(git: &'a G, cache_path: &'a String) -> (r: Fetcher<'a, G>)
        ensures
            r.cache_path == cache_path,
    {
        Fetcher { git, cache_path }
    }

    /// The local source directory and whether it is transient (a fresh
    /// clone, intended for later removal). A git location is cloned
    /// shallowly; anything else needs an archive, looked up in the cache
    /// under its URL with a day's freshness, or none at all under
    /// `no_cache`, and its extraction root resolved: the single top
    /// folder, a named folder, or the extracted directory itself.
    pub fn fetch(&self, location: &Location, assets: &Assets, no_cache: bool) -> (r: Result<
        (String, bool),
        Error,
    >)
        ensures
            r matches Ok(p) ==> p.1 == location.is_git,
            !location.is_git && assets.archive is None ==> (r matches Err(e) && e is Fetch),
            r matches Ok(p) ==> (!location.is_git ==> (match assets.archive {
                Some(a) => match a.root {
                    ArchiveRoot::Folder(name) => exists|e: Seq<char>|
                        p.0@ == #[trigger] spec_path_join(e, name@),
                    _ => true,
                },
                None => true,
            })),
    {
        if location.is_git {
            let out = match ephemeral_dir() {
                Ok(out) => out,
                Err(m) => {
                    return Err(Error::Io(m));
                },
            };
            match self.git.shallow_clone(location, &out) {
                Ok(()) => Ok((out, true)),
                Err(e) => Err(e),
            }
        } else {
            let archive = match &assets.archive {
                Some(a) => a,
                None => {
                    let mut m = String::new();
                    m.append("no archive found");
                    return Err(Error::Fetch(m));
                },
            };
            let ttl = cache_ttl(no_cache);
            let extracted = match fetch_archive_cached(self.cache_path, &archive.url, ttl) {
                Ok(dir) => dir,
                Err(m) => {
                    return Err(Error::Fetch(m));
                },
            };
            let dir: String = match &archive.root {
                ArchiveRoot::FirstFolder => match first_entry(&extracted) {
                    Ok(d) => d,
                    Err(m) => {
                        return Err(Error::Fetch(m));
                    },
                },
                ArchiveRoot::Folder(name) => {
                    let joined = path_join(&extracted, name);
                    proof {
                        assert(joined@ == spec_path_join(extracted@, name@));
                    }
                    joined
                },
                ArchiveRoot::Whole => extracted,
            };
            Ok((dir, false))
        }
    }
}

} // verus!
