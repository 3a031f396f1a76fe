use backpack::content::Coordinate;
use backpack::data::Location;

#[test]
fn test_location_urls() {
    let loc = Location::from(&"https://github.com/user/repo.git".to_string(), true).unwrap();
    assert_eq!(loc.git_url(), "git@github.com:user/repo.git");
    assert_eq!(loc.web_url(), "https://github.com/user/repo");

    let loc = Location::from(&"https://github.com/user/repo".to_string(), false).unwrap();
    assert_eq!(loc.git_url(), "git@github.com:user/repo.git");
    assert_eq!(loc.web_url(), "https://github.com/user/repo");

    let loc = Location::from(&"https://github.com/user/repo.git".to_string(), false).unwrap();
    assert_eq!(loc.git_url(), "git@github.com:user/repo.git");
    assert_eq!(loc.web_url(), "https://github.com/user/repo");
}

#[test]
fn test_location_subfolder_and_ref() {
    let loc = Location::from(
        &"https://github.com/foo/bar/-/fixtures/sub#dev".to_string(),
        false,
    )
    .unwrap();
    assert_eq!(loc.domain, "github.com");
    assert_eq!(loc.path, "/foo/bar");
    assert_eq!(loc.project, "bar");
    assert_eq!(loc.subfolder.as_deref(), Some("fixtures/sub"));
    assert_eq!(loc.gref.as_deref(), Some("dev"));
    assert!(!loc.is_git);
}

#[test]
fn test_location_port_query_auth() {
    let loc = Location::from(
        &"https://user:pw@example.com:8443/grp/proj?x=1#main".to_string(),
        true,
    )
    .unwrap();
    assert_eq!(loc.domain, "example.com");
    assert_eq!(loc.port, Some(8443));
    assert_eq!(loc.query.as_deref(), Some("x=1"));
    assert_eq!(loc.username, "user");
    assert_eq!(loc.password.as_deref(), Some("pw"));
    assert_eq!(loc.gref.as_deref(), Some("main"));
    assert!(loc.is_git);
}

#[test]
fn test_coord_new() {
    let plain = Location::from(&"https://github.com/foo/bar".to_string(), true).unwrap();
    let with_sub =
        Location::from(&"https://github.com/foo/bar/-/subfolder/qux".to_string(), true).unwrap();
    let with_file = Location::from(
        &"https://github.com/foo/bar/-/fixtures/local-project.yaml".to_string(),
        true,
    )
    .unwrap();

    let c = Coordinate::from_parts(&"here".to_string(), None, &plain, false, false).unwrap();
    assert_eq!(c.from, "here");
    assert_eq!(c.to, ".");
    assert!(!c.is_file);

    let c = Coordinate::from_parts(&"here".to_string(), None, &with_sub, false, false).unwrap();
    assert_eq!(c.from, "here/subfolder/qux");
    assert_eq!(c.to, "subfolder/qux");

    let c = Coordinate::from_parts(
        &"here".to_string(),
        Some(&"there".to_string()),
        &plain,
        false,
        false,
    )
    .unwrap();
    assert_eq!(c.from, "here");
    assert_eq!(c.to, "there");

    let c = Coordinate::from_parts(
        &"here".to_string(),
        Some(&"there".to_string()),
        &with_sub,
        false,
        false,
    )
    .unwrap();
    assert_eq!(c.from, "here/subfolder/qux");
    assert_eq!(c.to, "there");

    let c = Coordinate::from_parts(&"tests".to_string(), None, &with_file, false, true).unwrap();
    assert_eq!(c.from, "tests/fixtures/local-project.yaml");
    assert_eq!(c.to, "fixtures/local-project.yaml");
    assert!(c.is_file);

    let c = Coordinate::from_parts(
        &"tests".to_string(),
        Some(&"there".to_string()),
        &with_file,
        false,
        true,
    )
    .unwrap();
    assert_eq!(c.from, "tests/fixtures/local-project.yaml");
    // an explicit destination is final, also for a single file
    assert_eq!(c.to, "there");
}

#[test]
fn test_subfolder_splits_at_first_delimiter() {
    let loc = Location::from(&"https://github.com/a/b/-/c/-/d".to_string(), false).unwrap();
    assert_eq!(loc.path, "/a/b");
    assert_eq!(loc.subfolder.as_deref(), Some("c/-/d"));
}

#[test]
fn test_location_no_project_name() {
    let r = Location::from(&"https://github.com".to_string(), false);
    assert!(r.is_err());
    assert_eq!(
        r.unwrap_err().message(),
        "cannot find project name"
    );
}
