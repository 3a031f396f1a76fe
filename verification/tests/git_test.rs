use backpack::data::Location;
use backpack::git::{RemoteInfo, clone_args, parse_ls_remote, select_ref, single_remote_line};

fn remote(revision: &str, name: &str) -> RemoteInfo {
    RemoteInfo { revision: revision.to_string(), ref_: name.to_string() }
}

#[test]
fn test_mainbranch_resolving() {
    // the default branch: the non-HEAD ref sharing HEAD's revision
    let refs = vec![
        remote("abc", "HEAD"),
        remote("def", "refs/heads/gh-pages"),
        remote("abc", "refs/heads/master"),
    ];
    let r = select_ref(&refs, &None).unwrap();
    assert_eq!(r.ref_, "refs/heads/master");
    assert_eq!(r.revision, "abc");
}

#[test]
fn test_tags_resolving() {
    let refs = vec![
        remote("abc", "HEAD"),
        remote("abc", "refs/heads/master"),
        remote("eee", "refs/tags/v6.2.0"),
    ];
    let r = select_ref(&refs, &Some("v6.2.0".to_string())).unwrap();
    assert_eq!(r.ref_, "refs/tags/v6.2.0");
}

#[test]
fn test_branches_resolving() {
    let refs = vec![
        remote("abc", "HEAD"),
        remote("abc", "refs/heads/master"),
        remote("ddd", "refs/heads/gh-pages"),
    ];
    let r = select_ref(&refs, &Some("gh-pages".to_string())).unwrap();
    assert_eq!(r.ref_, "refs/heads/gh-pages");
    assert_eq!(r.revision, "ddd");
}

#[test]
fn test_ref_errors() {
    let refs = vec![remote("abc", "HEAD"), remote("abc", "refs/heads/master")];
    assert_eq!(
        select_ref(&refs, &Some("nope".to_string())).unwrap_err().message(),
        "no such ref found: nope"
    );

    let no_head = vec![remote("abc", "refs/heads/master")];
    assert_eq!(select_ref(&no_head, &None).unwrap_err().message(), "no HEAD ref found");

    let lone_head = vec![remote("abc", "HEAD")];
    assert_eq!(
        select_ref(&lone_head, &None).unwrap_err().message(),
        "no default branch found"
    );
}

#[test]
fn test_parse_ls_remote() {
    let out = "abc\tHEAD\ndef\trefs/heads/main\n".to_string();
    let refs = parse_ls_remote(&out).unwrap();
    assert_eq!(refs.len(), 2);
    assert_eq!(refs[0], remote("abc", "HEAD"));
    assert_eq!(refs[1], remote("def", "refs/heads/main"));

    let no_tab = "abc HEAD\n".to_string();
    assert_eq!(
        parse_ls_remote(&no_tab).unwrap_err().message(),
        "Output line contains no '\\t'"
    );

    let two_tabs = "abc\tHEAD\textra\n".to_string();
    assert_eq!(
        parse_ls_remote(&two_tabs).unwrap_err().message(),
        "Output line contains more than one '\\t'"
    );

    let empty = String::new();
    assert_eq!(parse_ls_remote(&empty).unwrap().len(), 0);
}

#[test]
fn test_single_remote_line() {
    assert_eq!(
        single_remote_line(&"git@github.com:user/repo.git\n".to_string()).unwrap(),
        "git@github.com:user/repo.git"
    );
    assert_eq!(
        single_remote_line(&"git@github.com:user/repo.git\r\n".to_string()).unwrap(),
        "git@github.com:user/repo.git"
    );
    assert_eq!(
        single_remote_line(&String::new()).unwrap_err().message(),
        "no repo remote URL found"
    );
    assert_eq!(
        single_remote_line(&"one\ntwo\n".to_string()).unwrap_err().message(),
        "repo has more than one remote URL"
    );
}

#[test]
fn test_clone_args() {
    let plain = Location::from(&"https://github.com/user/repo".to_string(), true).unwrap();
    assert_eq!(
        clone_args(&plain, &"outdir".to_string()),
        vec!["clone", "--depth=1", "git@github.com:user/repo.git", "outdir"]
    );
    let with_ref =
        Location::from(&"https://github.com/user/repo#dev".to_string(), true).unwrap();
    assert_eq!(
        clone_args(&with_ref, &"outdir".to_string()),
        vec!["clone", "--depth=1", "-b", "dev", "git@github.com:user/repo.git", "outdir"]
    );
}
