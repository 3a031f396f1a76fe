use backpack::data::{ArchiveRoot, Location};
use backpack::git::RemoteInfo;
use backpack::vendors::{BitBucket, Github, GithubGist, Gitlab, LocalGit, ResolvedVendor, Vendor,
    Vendors};

fn master_refs() -> Vec<RemoteInfo> {
    vec![
        RemoteInfo { revision: "rev".to_string(), ref_: "HEAD".to_string() },
        RemoteInfo { revision: "rev".to_string(), ref_: "refs/heads/master".to_string() },
    ]
}

#[test]
fn test_github() {
    let gh = Github::new(None);
    let location = Location::from(&"https://github.com/jondot/hygen".to_string(), false).unwrap();
    let assets = gh.assets(&location, &master_refs()).unwrap();
    let archive = assets.archive.unwrap();
    assert_eq!(
        archive.url,
        "https://github.com/jondot/hygen/archive/refs/heads/master.tar.gz"
    );
    assert!(matches!(archive.root, ArchiveRoot::FirstFolder));
    assert_eq!(assets.git.as_deref(), Some("git@github.com:jondot/hygen.git"));
}

#[test]
fn test_gitlab() {
    let gl = Gitlab::new(None);
    let location =
        Location::from(&"https://gitlab.com/jondot/backpack-e2e".to_string(), false).unwrap();
    let assets = gl.assets(&location, &master_refs()).unwrap();
    let archive = assets.archive.unwrap();
    assert_eq!(
        archive.url,
        "https://gitlab.com/jondot/backpack-e2e/-/archive/refs/heads/master/backpack-e2e-refs-heads-master.tar.gz"
    );
    assert!(matches!(archive.root, ArchiveRoot::FirstFolder));
    assert_eq!(assets.git.as_deref(), Some("git@gitlab.com:jondot/backpack-e2e.git"));
}

#[test]
fn test_bitbucket() {
    let bb = BitBucket::new(None);
    let location =
        Location::from(&"https://bitbucket.org/microsoft/azure-cli-run".to_string(), false)
            .unwrap();
    let assets = bb.assets(&location, &master_refs()).unwrap();
    let archive = assets.archive.unwrap();
    assert_eq!(
        archive.url,
        "https://bitbucket.org/microsoft/azure-cli-run/get/refs/heads/master.tar.gz"
    );
    assert!(matches!(archive.root, ArchiveRoot::FirstFolder));
    assert_eq!(
        assets.git.as_deref(),
        Some("git@bitbucket.org:microsoft/azure-cli-run.git")
    );
}

#[test]
fn test_gist_uses_head_ref() {
    let gist = GithubGist::new(None);
    let location = Location::from(
        &"https://gist.github.com/jondot/15086f59dab44f30bb10f82ca09f4887".to_string(),
        false,
    )
    .unwrap();
    let assets = gist.assets(&location, &master_refs()).unwrap();
    let archive = assets.archive.unwrap();
    assert_eq!(
        archive.url,
        "https://gist.github.com/jondot/15086f59dab44f30bb10f82ca09f4887/archive/HEAD.tar.gz"
    );
}

#[test]
fn test_gist_without_head_fails() {
    let gist = GithubGist::new(None);
    let location = Location::from(&"https://gist.github.com/a/b".to_string(), false).unwrap();
    let refs = vec![RemoteInfo {
        revision: "rev".to_string(),
        ref_: "refs/heads/main".to_string(),
    }];
    let r = gist.assets(&location, &refs);
    assert_eq!(r.unwrap_err().message(), "no HEAD ref found");
}

#[test]
fn test_local_git_assets() {
    let local = LocalGit {};
    let location = Location::from(&"file:///home/me/proj.git".to_string(), true).unwrap();
    let assets = local.assets(&location, &Vec::new()).unwrap();
    assert!(assets.archive.is_none());
    assert_eq!(assets.git.as_deref(), Some("file:///home/me/proj.git"));
}

#[test]
fn test_lookup_table_aliases() {
    let v = Vendors::new(None);
    match v.lookup(&"gh".to_string()).unwrap() {
        ResolvedVendor::Github(g) => assert_eq!(g.base, "github.com"),
        _ => panic!("expected the github vendor"),
    }
    match v.lookup(&"gl".to_string()).unwrap() {
        ResolvedVendor::Gitlab(g) => assert_eq!(g.base, "gitlab.com"),
        _ => panic!("expected the gitlab vendor"),
    }
    match v.lookup(&"bb".to_string()).unwrap() {
        ResolvedVendor::Bitbucket(g) => assert_eq!(g.base, "bitbucket.org"),
        _ => panic!("expected the bitbucket vendor"),
    }
    match v.lookup(&"gist".to_string()).unwrap() {
        ResolvedVendor::Gist(g) => assert_eq!(g.base, "gist.github.com"),
        _ => panic!("expected the gist vendor"),
    }
    match v.lookup(&String::new()).unwrap() {
        ResolvedVendor::Github(g) => assert_eq!(g.base, "github.com"),
        _ => panic!("expected the default github vendor"),
    }
    let err = v.lookup(&"notfound".to_string()).unwrap_err();
    assert_eq!(err.message(), "no vendor found for: notfound");
}

#[test]
fn test_vendor_trait_dispatch() {
    let gh = Github::new(None);
    let location = Location::from(&"https://github.com/jondot/hygen".to_string(), false).unwrap();
    let v: &dyn Vendor = &gh;
    assert_eq!(v.base(), "github.com");
    let assets = v.resolve(&location, &master_refs()).unwrap();
    assert_eq!(
        assets.archive.unwrap().url,
        "https://github.com/jondot/hygen/archive/refs/heads/master.tar.gz"
    );
}
