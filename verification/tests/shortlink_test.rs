use std::collections::BTreeMap;

use backpack::config::{Config, CustomVendor, Project, VendorsConfig};
use backpack::data::Location;
use backpack::errors::Error;
use backpack::fetch::{Fetcher, cache_ttl};
use backpack::fsio::FsIo;
use backpack::git::{GitProvider, RemoteInfo, select_ref};
use backpack::content::OverwritePrompt;
use backpack::run::{Runner, RunnerPrompt};
use backpack::shortlink::{Shortlink, expand};
use backpack::vendors::{ResolvedVendor, Vendors};

struct NoFs;

impl FsIo for NoFs {
    fn path_exists(&self, _p: &String) -> bool {
        false
    }
    fn is_file(&self, _p: &String) -> bool {
        false
    }
    fn read(&self, p: &String) -> Result<Vec<u8>, String> {
        Err(format!("no such file: {p}"))
    }
    fn write_text(&mut self, _p: &String, _c: &String) -> Result<(), String> {
        Err("read-only".to_string())
    }
    fn copy_file(&mut self, _f: &String, _t: &String) -> Result<(), String> {
        Err("read-only".to_string())
    }
    fn create_dir_all(&mut self, _p: &String) -> Result<(), String> {
        Err("read-only".to_string())
    }
    fn walk_files(&self, _root: &String) -> Result<Vec<String>, String> {
        Ok(Vec::new())
    }
}

struct TestGitProvider {
    refs: Vec<RemoteInfo>,
}

impl GitProvider for TestGitProvider {
    fn shallow_clone(&self, _location: &Location, _out: &String) -> Result<(), Error> {
        Ok(())
    }
    fn ls_remote(&self, _location: &Location) -> Result<Vec<RemoteInfo>, Error> {
        Ok(self.refs.clone())
    }
    fn get_ref_or_default(&self, location: &Location) -> Result<RemoteInfo, Error> {
        let refs = self.ls_remote(location)?;
        select_ref(&refs, &location.gref)
    }
    fn get_local_url(&self) -> Result<String, Error> {
        Ok(String::new())
    }
}

#[test]
fn test_expand_vendor_prefix() {
    let vendors = Vendors::new(None);
    let (vendor, loc) =
        expand(&"gh:jondot/hygen".to_string(), false, &vendors, false).unwrap();
    assert!(matches!(vendor, ResolvedVendor::Github(_)));
    assert_eq!(loc.domain, "github.com");
    assert_eq!(loc.path, "/jondot/hygen");
    assert_eq!(loc.project, "hygen");
    assert!(!loc.is_git);
}

#[test]
fn test_expand_bare_path_uses_default_vendor() {
    let vendors = Vendors::new(None);
    let (vendor, loc) = expand(&"jondot/hygen".to_string(), false, &vendors, false).unwrap();
    assert!(matches!(vendor, ResolvedVendor::Github(_)));
    assert_eq!(loc.domain, "github.com");
    assert_eq!(loc.path, "/jondot/hygen");
}

#[test]
fn test_expand_git_form_forces_git_transport() {
    let vendors = Vendors::new(None);
    let (vendor, loc) =
        expand(&"git@github.com:user/repo".to_string(), false, &vendors, false).unwrap();
    assert!(matches!(vendor, ResolvedVendor::Github(_)));
    assert_eq!(loc.domain, "github.com");
    assert_eq!(loc.path, "/user/repo");
    assert!(loc.is_git);
}

#[test]
fn test_expand_https_url_with_subfolder_and_ref() {
    let vendors = Vendors::new(None);
    let (vendor, loc) = expand(
        &"https://gitlab.com/jondot/hygen/-/sub#wip".to_string(),
        false,
        &vendors,
        false,
    )
    .unwrap();
    assert!(matches!(vendor, ResolvedVendor::Gitlab(_)));
    assert_eq!(loc.domain, "gitlab.com");
    assert_eq!(loc.path, "/jondot/hygen");
    assert_eq!(loc.subfolder.as_deref(), Some("sub"));
    assert_eq!(loc.gref.as_deref(), Some("wip"));
}

#[test]
fn test_expand_unknown_vendor() {
    let vendors = Vendors::new(None);
    let r = expand(&"notfound:jondot/hygen".to_string(), false, &vendors, false);
    assert_eq!(r.unwrap_err().message(), "no vendor found for: notfound");
}

#[test]
fn test_expand_custom_vendor_table() {
    let cfg = VendorsConfig {
        vendors_default: Some(CustomVendor {
            kind: "gitlab".to_string(),
            base: "my.gitlab.com".to_string(),
        }),
        custom: vec![(
            "ghe".to_string(),
            CustomVendor {
                kind: "github".to_string(),
                base: "github.enterprise.example.com".to_string(),
            },
        )],
    };
    let vendors = Vendors::new(Some(&cfg));

    let (vendor, loc) = expand(&"jondot/hygen".to_string(), false, &vendors, false).unwrap();
    assert!(matches!(vendor, ResolvedVendor::Gitlab(_)));
    assert_eq!(loc.domain, "my.gitlab.com");

    let (vendor, loc) =
        expand(&"ghe:my-team/my-repo".to_string(), false, &vendors, false).unwrap();
    assert!(matches!(vendor, ResolvedVendor::Github(_)));
    assert_eq!(loc.domain, "github.enterprise.example.com");
    assert_eq!(loc.path, "/my-team/my-repo");
}

#[test]
fn test_expand_vendor_base_with_path() {
    let cfg = VendorsConfig {
        vendors_default: None,
        custom: vec![(
            "gh".to_string(),
            CustomVendor {
                kind: "github".to_string(),
                base: "beta.github.com/my-org".to_string(),
            },
        )],
    };
    let vendors = Vendors::new(Some(&cfg));
    let (_vendor, loc) = expand(&"gh:my-repo".to_string(), false, &vendors, false).unwrap();
    assert_eq!(loc.domain, "beta.github.com");
    assert_eq!(loc.path, "/my-org/my-repo");
    assert_eq!(loc.project, "my-repo");
}

#[test]
fn test_resolve_uses_default_branch_and_project_overrides() {
    // a shortlink with no explicit ref resolves to the provider-reported
    // default branch
    let git = TestGitProvider {
        refs: vec![
            RemoteInfo { revision: "abc".to_string(), ref_: "HEAD".to_string() },
            RemoteInfo { revision: "abc".to_string(), ref_: "refs/heads/master".to_string() },
        ],
    };
    let config = Config::new();
    let sl = Shortlink::new(&config, &git);
    let (loc, assets) = sl.resolve(&"jondot/hygen".to_string(), false, &NoFs).unwrap();
    assert_eq!(loc.domain, "github.com");
    assert_eq!(
        assets.archive.unwrap().url,
        "https://github.com/jondot/hygen/archive/refs/heads/master.tar.gz"
    );

    // a configured project shortcut replaces the link
    let config = Config {
        projects: vec![(
            "rust-starter".to_string(),
            Project {
                shortlink: "jondot/rust-starter".to_string(),
                is_git: None,
                description: None,
                actions: None,
                swaps: None,
                use_camp: None,
            },
        )],
        vendors: None,
    };
    let sl = Shortlink::new(&config, &git);
    let (loc, _assets) = sl.resolve(&"rust-starter".to_string(), false, &NoFs).unwrap();
    assert_eq!(loc.path, "/jondot/rust-starter");
}

#[test]
fn test_fetch_without_archive_fails() {
    let git = TestGitProvider { refs: Vec::new() };
    let cache = "cache".to_string();
    let fetcher = Fetcher::new(&git, &cache);
    let loc = Location::from(&"https://github.com/foo/bar".to_string(), false).unwrap();
    let assets = backpack::data::Assets { archive: None, git: None };
    let r = fetcher.fetch(&loc, &assets, false);
    assert_eq!(r.unwrap_err().message(), "no archive found");
}

#[test]
fn test_cache_ttl() {
    assert_eq!(cache_ttl(false), 60 * 60 * 24);
    assert_eq!(cache_ttl(true), 0);
}

#[test]
fn test_keyed_config_lookup() {
    let mut by_name = BTreeMap::new();
    by_name.insert("a", "jondot/one");
    by_name.insert("b", "jondot/two");
    let config = Config {
        projects: by_name
            .iter()
            .map(|(k, v)| {
                (
                    k.to_string(),
                    Project {
                        shortlink: v.to_string(),
                        is_git: None,
                        description: None,
                        actions: None,
                        swaps: None,
                        use_camp: None,
                    },
                )
            })
            .collect(),
        vendors: None,
    };
    assert_eq!(config.project(&"b".to_string()).unwrap().shortlink, "jondot/two");
    assert!(config.project(&"c".to_string()).is_none());
}

struct GivenArgs;

impl RunnerPrompt for GivenArgs {
    fn fill_missing(
        &mut self,
        shortlink: Option<&String>,
        dest: Option<&String>,
    ) -> Result<(String, Option<String>, bool), Error> {
        Ok((shortlink.cloned().unwrap_or_default(), dest.cloned(), false))
    }
    fn are_you_sure(&mut self, _text: &String) -> Result<bool, Error> {
        Ok(true)
    }
}

impl OverwritePrompt for GivenArgs {
    fn confirm_overwrite(&mut self, _path: &String) -> Result<bool, Error> {
        Ok(true)
    }
}

#[test]
fn test_runner_reports_a_completed_run() {
    // a git-transport run against stubbed collaborators: the clone is a
    // no-op, the ephemeral source holds nothing, so the run completes
    // with an empty report and no actions
    let git = TestGitProvider {
        refs: vec![
            RemoteInfo { revision: "abc".to_string(), ref_: "HEAD".to_string() },
            RemoteInfo { revision: "abc".to_string(), ref_: "refs/heads/master".to_string() },
        ],
    };
    let config = Config::new();
    let cache = "cache".to_string();
    let runner = Runner::new(&git, &config, &cache);
    let opts = backpack::data::Opts {
        show_progress: false,
        overwrite: false,
        mode: backpack::data::CopyMode::Apply,
        is_git: true,
        no_cache: false,
        always_yes: true,
        remote: None,
    };
    let mut fs = NoFs;
    let mut prompt = GivenArgs;
    let link = "jondot/hygen".to_string();
    let dest = "out".to_string();
    let report = runner
        .run(Some(&link), Some(&dest), &opts, &mut fs, &mut prompt)
        .unwrap()
        .unwrap();
    assert_eq!(report.files.len(), 0);
    assert!(report.actions.is_none());
}
