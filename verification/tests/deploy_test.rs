use std::collections::BTreeMap;
use std::collections::BTreeSet;

use backpack::actions::ActionRunner;
use backpack::config::ProjectSetupActions;
use backpack::content::{Coordinate, Deployer, OverwritePrompt, copy_files, guess_dest};
use backpack::data::{CopyMode, Location, Opts, Overwrite};
use backpack::errors::Error;
use backpack::fsio::FsIo;
use backpack::swap::{Swap, SwapKind, SwapOp, Swapper};
use backpack::varbag::VarBag;

/// An in-memory file tree standing in for the disk.
struct MemFs {
    files: BTreeMap<String, Vec<u8>>,
    dirs: BTreeSet<String>,
}

impl MemFs {
    fn new() -> MemFs {
        MemFs { files: BTreeMap::new(), dirs: BTreeSet::new() }
    }

    fn with_file(mut self, p: &str, contents: &[u8]) -> MemFs {
        self.files.insert(p.to_string(), contents.to_vec());
        self
    }

    fn with_dir(mut self, p: &str) -> MemFs {
        self.dirs.insert(p.to_string());
        self
    }
}

impl FsIo for MemFs {
    fn path_exists(&self, p: &String) -> bool {
        self.files.contains_key(p)
            || self.dirs.contains(p)
            || self.files.keys().any(|k| k.starts_with(&format!("{p}/")))
    }

    fn is_file(&self, p: &String) -> bool {
        self.files.contains_key(p)
    }

    fn read(&self, p: &String) -> Result<Vec<u8>, String> {
        self.files.get(p).cloned().ok_or_else(|| format!("no such file: {p}"))
    }

    fn write_text(&mut self, p: &String, contents: &String) -> Result<(), String> {
        self.files.insert(p.clone(), contents.as_bytes().to_vec());
        Ok(())
    }

    fn copy_file(&mut self, from: &String, to: &String) -> Result<(), String> {
        let data = self.files.get(from).cloned().ok_or_else(|| format!("no such file: {from}"))?;
        self.files.insert(to.clone(), data);
        Ok(())
    }

    fn create_dir_all(&mut self, p: &String) -> Result<(), String> {
        self.dirs.insert(p.clone());
        Ok(())
    }

    fn walk_files(&self, root: &String) -> Result<Vec<String>, String> {
        let prefix = format!("{root}/");
        Ok(self
            .files
            .keys()
            .filter(|k| *k == root || k.starts_with(&prefix))
            .cloned()
            .collect())
    }
}

struct NeverAsk;

impl OverwritePrompt for NeverAsk {
    fn confirm_overwrite(&mut self, _path: &String) -> Result<bool, Error> {
        panic!("no overwrite question was expected");
    }
}

struct AlwaysNo;

impl OverwritePrompt for AlwaysNo {
    fn confirm_overwrite(&mut self, _path: &String) -> Result<bool, Error> {
        Ok(false)
    }
}

fn opts(mode: CopyMode, overwrite: bool) -> Opts {
    Opts {
        show_progress: false,
        overwrite,
        mode,
        is_git: false,
        no_cache: false,
        always_yes: true,
        remote: None,
    }
}

fn swap_all(key: &str, val: &str) -> Swap {
    Swap {
        key: key.to_string(),
        val: Some(val.to_string()),
        val_template: None,
        path: None,
        kind: SwapKind::All,
    }
}

#[test]
fn test_swap_engine_path_and_content() {
    let vars = VarBag::new();
    let swaps = vec![swap_all("$X$", "Y")];
    let swapper = Swapper::with_vars(Some(&swaps), &vars).unwrap();

    // a path swap
    assert_eq!(swapper.path(&"a/$X$/b".to_string()), "a/Y/b");

    // a text file is rendered, with a substitution count
    let mut fs = MemFs::new().with_file("src/hello.txt", b"say $X$!");
    let res = swapper
        .copy_to(&mut fs, &"src/hello.txt".to_string(), &"out/hello.txt".to_string())
        .unwrap();
    assert_eq!(res.dest, "out/hello.txt");
    assert_eq!(res.op, SwapOp::Rendered(1));
    assert_eq!(fs.files.get("out/hello.txt").unwrap(), b"say Y!");

    // a binary file keeps its bytes
    let binary = [0u8, 159, 146, 150, 0, 1, 2];
    let mut fs = MemFs::new().with_file("src/blob.bin", &binary);
    let res = swapper
        .copy_to(&mut fs, &"src/blob.bin".to_string(), &"out/blob.bin".to_string())
        .unwrap();
    assert_eq!(res.op, SwapOp::Copied);
    assert_eq!(fs.files.get("out/blob.bin").unwrap(), &binary.to_vec());
}

#[test]
fn test_copy_mode_conflict_writes_nothing() {
    let mut fs = MemFs::new()
        .with_file("src/a.txt", b"a")
        .with_dir("out");
    let files_before = fs.files.clone();

    let location = Location::from(&"https://github.com/foo/bar".to_string(), false).unwrap();
    let coord =
        Coordinate::from_parts(&"src".to_string(), Some(&"out".to_string()), &location, false, false)
            .unwrap();

    let mut deployer = Deployer::new(ActionRunner::with_events(Vec::new()));
    let mut vars = VarBag::new();
    let r = deployer.deploy(
        &mut fs,
        coord,
        None,
        &mut vars,
        &opts(CopyMode::Copy, false),
        &mut NeverAsk,
    );
    match r {
        Err(Error::DeployConflict(m)) => assert_eq!(m, "destination already exists: out"),
        _ => panic!("expected a deploy conflict"),
    }
    assert_eq!(fs.files, files_before);
}

#[test]
fn test_deploy_copies_a_tree_and_skips_metadata() {
    let mut fs = MemFs::new()
        .with_file("src/readme.md", b"hello $X$")
        .with_file("src/sub/keep.txt", b"keep")
        .with_file("src/.git/config", b"never")
        .with_file("src/.backpack-project.yml", b"never");

    let location = Location::from(&"https://github.com/foo/bar".to_string(), false).unwrap();
    let coord =
        Coordinate::from_parts(&"src".to_string(), Some(&"out".to_string()), &location, false, false)
            .unwrap();

    let setup = ProjectSetupActions {
        actions: None,
        swaps: Some(vec![swap_all("$X$", "Y")]),
        use_camp: None,
    };
    let mut deployer = Deployer::new(ActionRunner::with_events(Vec::new()));
    let mut vars = VarBag::new();
    let (files, after) = deployer
        .deploy(
            &mut fs,
            coord,
            Some(setup),
            &mut vars,
            &opts(CopyMode::Copy, false),
            &mut NeverAsk,
        )
        .unwrap();
    assert!(after.is_none());
    assert_eq!(files.len(), 2);
    assert_eq!(fs.files.get("out/readme.md").unwrap(), b"hello Y");
    assert_eq!(fs.files.get("out/sub/keep.txt").unwrap(), b"keep");
    assert!(!fs.files.keys().any(|k| k.starts_with("out/.git")));
    assert!(!fs.files.contains_key("out/.backpack-project.yml"));
}

#[test]
fn test_overwrite_policy_ask_declined_skips() {
    let mut fs = MemFs::new()
        .with_file("src/a.txt", b"new")
        .with_file("out/a.txt", b"old");

    let location = Location::from(&"https://github.com/foo/bar".to_string(), false).unwrap();
    let coord =
        Coordinate::from_parts(&"src".to_string(), Some(&"out".to_string()), &location, false, false)
            .unwrap();

    let mut deployer = Deployer::new(ActionRunner::with_events(Vec::new()));
    let mut vars = VarBag::new();
    let (files, _) = deployer
        .deploy(
            &mut fs,
            coord,
            None,
            &mut vars,
            &opts(CopyMode::Apply, false),
            &mut AlwaysNo,
        )
        .unwrap();
    assert_eq!(files.len(), 0);
    assert_eq!(fs.files.get("out/a.txt").unwrap(), b"old");

    // with the overwrite option the file is replaced without asking
    let (files, _) = deployer
        .deploy(
            &mut fs,
            Coordinate::from_parts(
                &"src".to_string(),
                Some(&"out".to_string()),
                &location,
                false,
                false,
            )
            .unwrap(),
            None,
            &mut vars,
            &opts(CopyMode::Apply, true),
            &mut NeverAsk,
        )
        .unwrap();
    assert_eq!(files.len(), 1);
    assert_eq!(fs.files.get("out/a.txt").unwrap(), b"new");
}

#[test]
fn test_single_file_deploy() {
    let mut fs = MemFs::new().with_file("src/conf/build.yml", b"on: push");
    let location =
        Location::from(&"https://github.com/foo/bar/-/conf/build.yml".to_string(), false).unwrap();
    let coord = Coordinate::new(
        &"src".to_string(),
        Some(&"out/build.yml".to_string()),
        &location,
        false,
        &fs,
    )
    .unwrap();
    assert!(coord.is_file);
    assert_eq!(coord.from, "src/conf/build.yml");
    assert_eq!(coord.to, "out/build.yml");

    let mut deployer = Deployer::new(ActionRunner::with_events(Vec::new()));
    let mut vars = VarBag::new();
    let (files, _) = deployer
        .deploy(
            &mut fs,
            coord,
            None,
            &mut vars,
            &opts(CopyMode::Apply, false),
            &mut NeverAsk,
        )
        .unwrap();
    assert_eq!(files.len(), 1);
    assert_eq!(files[0].dest, "out/build.yml");
    assert_eq!(fs.files.get("out/build.yml").unwrap(), b"on: push");
}

#[test]
fn test_guess_dest_picks_first_free_name() {
    let fs = MemFs::new().with_dir("my-project1").with_dir("my-project2");
    assert_eq!(guess_dest(&fs).unwrap(), "my-project3");
    let empty = MemFs::new();
    assert_eq!(guess_dest(&empty).unwrap(), "my-project1");
}

#[test]
fn test_missing_source_surfaces_an_io_error() {
    let vars = VarBag::new();
    let swapper = Swapper::with_vars(None, &vars).unwrap();
    let mut fs = MemFs::new();
    let r = swapper.copy_to(&mut fs, &"src/gone.txt".to_string(), &"out/gone.txt".to_string());
    match r {
        Err(Error::Io(m)) => assert_eq!(m, "no such file: src/gone.txt"),
        _ => panic!("expected an io error"),
    }
}

#[test]
fn test_render_bytes_decides_text_against_binary() {
    let vars = VarBag::new();
    let swaps = vec![swap_all("$X$", "Y")];
    let swapper = Swapper::with_vars(Some(&swaps), &vars).unwrap();
    let source = "src/a.txt".to_string();

    // text: rendered with its count
    let r = swapper.render_bytes(&source, b"say $X$!".to_vec()).unwrap();
    let (rendered, count) = r.unwrap();
    assert_eq!(rendered, "say Y!");
    assert_eq!(count, 1);

    // binary: kept as it is
    let r = swapper.render_bytes(&source, vec![0u8, 159, 146, 150]).unwrap();
    assert!(r.is_none());

    // reads as text (a byte-order mark) but does not decode: the copy fails
    let r = swapper.render_bytes(&source, vec![0xFFu8, 0xFE, b'a', b'b']);
    assert!(matches!(r, Err(Error::Io(_))));
}

#[test]
fn test_copy_files_always_copies_every_kept_file() {
    let vars = VarBag::new();
    let swapper = Swapper::with_vars(None, &vars).unwrap();
    let mut fs = MemFs::new()
        .with_file("src/a.txt", b"a")
        .with_file("src/.git/config", b"never")
        .with_file("src/sub/b.txt", b"b");
    let files = vec![
        "src/.git/config".to_string(),
        "src/a.txt".to_string(),
        "src/sub/b.txt".to_string(),
    ];
    let results = copy_files(
        &mut fs,
        &swapper,
        &files,
        &"src".to_string(),
        &"out".to_string(),
        &Overwrite::Always,
        &mut NeverAsk,
    )
    .unwrap();
    let dests: Vec<&str> = results.iter().map(|r| r.dest.as_str()).collect();
    assert_eq!(dests, vec!["out/a.txt", "out/sub/b.txt"]);
    assert!(!fs.files.contains_key("out/.git/config"));
}
