use backpack::swap::{Swap, SwapKind, Swapper};
use backpack::varbag::VarBag;

fn bag_with(k: &str, v: &str) -> VarBag {
    let mut bag = VarBag::new();
    bag.insert(k.to_string(), v.to_string());
    bag
}

#[test]
fn test_render_swaps() {
    let h = bag_with("world", "crewl world");
    let swaps = vec![Swap {
        key: "key".to_string(),
        val_template: Some("Hello {{world}}".to_string()),
        val: None,
        ..Default::default()
    }];
    let swapper = Swapper::with_vars(Some(&swaps), &h).unwrap();
    assert_eq!(swapper.swaps.len(), 1);
    assert_eq!(swapper.swaps[0].key, "key");
    assert_eq!(swapper.swaps[0].val.as_deref(), Some("Hello crewl world"));
}

#[test]
fn test_render_swaps_inflections() {
    let h = bag_with("world", "crewl world");
    let swaps = vec![Swap {
        key: "key".to_string(),
        val_template: Some("Hello {{world | kebab_case}}".to_string()),
        val: None,
        ..Default::default()
    }];
    let swapper = Swapper::with_vars(Some(&swaps), &h).unwrap();
    assert_eq!(swapper.swaps[0].val.as_deref(), Some("Hello crewl-world"));
}

#[test]
fn test_render_swaps_empty_context() {
    let h = VarBag::new();
    let swaps = vec![Swap {
        key: "key".to_string(),
        val_template: Some("Hello {{world}}".to_string()),
        val: None,
        ..Default::default()
    }];
    let r = Swapper::with_vars(Some(&swaps), &h);
    assert_eq!(r.unwrap_err().message(), "Failed to render '__tera_one_off'");
}

#[test]
fn test_render_wrong_context() {
    let h = bag_with("foobar", "crewl world");
    let swaps = vec![Swap {
        key: "key".to_string(),
        val_template: Some("Hello {{world}}".to_string()),
        val: None,
        ..Default::default()
    }];
    let r = Swapper::with_vars(Some(&swaps), &h);
    assert_eq!(r.unwrap_err().message(), "Failed to render '__tera_one_off'");
}

#[test]
fn test_swap_config_error() {
    let h = VarBag::new();
    let swaps = vec![Swap { key: "key".to_string(), ..Default::default() }];
    let r = Swapper::with_vars(Some(&swaps), &h);
    assert_eq!(
        r.unwrap_err().message(),
        "each swap should have either `val` or `val_template`"
    );
}

#[test]
fn test_match_path() {
    let p = "some/path".to_string();
    assert!(Swap::default().match_path(&p));

    assert!(Swap { kind: SwapKind::All, ..Default::default() }.match_path(&p));

    assert!(Swap { kind: SwapKind::Path, ..Default::default() }.match_path(&p));

    assert!(!Swap { kind: SwapKind::Content, ..Default::default() }.match_path(&p));

    assert!(!Swap {
        kind: SwapKind::Path,
        path: Some(".*foo".to_string()),
        ..Default::default()
    }
    .match_path(&p));

    assert!(Swap {
        kind: SwapKind::Path,
        path: Some("some/.*".to_string()),
        ..Default::default()
    }
    .match_path(&p));
}

#[test]
fn test_match_copy() {
    let p = "some/path".to_string();
    assert!(Swap::default().match_content(&p));

    assert!(Swap { kind: SwapKind::All, ..Default::default() }.match_content(&p));

    assert!(!Swap { kind: SwapKind::Path, ..Default::default() }.match_content(&p));

    assert!(Swap { kind: SwapKind::Content, ..Default::default() }.match_content(&p));

    assert!(!Swap {
        kind: SwapKind::Content,
        path: Some(".*foo".to_string()),
        ..Default::default()
    }
    .match_content(&p));

    assert!(Swap {
        kind: SwapKind::Content,
        path: Some("some/.*".to_string()),
        ..Default::default()
    }
    .match_content(&p));
}

#[test]
fn test_swap_path() {
    let swaps = vec![Swap {
        key: "$SWAPME$".to_string(),
        kind: SwapKind::All,
        val_template: Some("{{greeting | kebab_case}}".to_string()),
        ..Default::default()
    }];
    let vars = bag_with("greeting", "hello world");

    let swapper = Swapper::with_vars(Some(&swaps), &vars).unwrap();
    assert_eq!("some/hello-world/path", swapper.path(&"some/$SWAPME$/path".to_string()));
    assert_eq!("some/naive/path", swapper.path(&"some/naive/path".to_string()));
}

#[test]
fn test_multiple_path_swaps() {
    let swaps = vec![
        Swap {
            key: "$SWAPME$".to_string(),
            kind: SwapKind::All,
            val_template: Some("{{greeting | kebab_case}}".to_string()),
            ..Default::default()
        },
        Swap {
            key: "HELLO".to_string(),
            kind: SwapKind::All,
            val: Some("world".to_string()),
            ..Default::default()
        },
    ];
    let vars = bag_with("greeting", "hello world");

    let swapper = Swapper::with_vars(Some(&swaps), &vars).unwrap();
    assert_eq!(
        "some/hello/hello-world/world/path",
        swapper.path(&"some/hello/$SWAPME$/HELLO/path".to_string())
    );
}

#[test]
fn test_multiple_content_swaps_render() {
    let swaps = vec![
        Swap {
            key: "better".to_string(),
            kind: SwapKind::All,
            val: Some("worse".to_string()),
            ..Default::default()
        },
        Swap {
            key: " don't".to_string(),
            kind: SwapKind::All,
            val: Some("".to_string()),
            ..Default::default()
        },
        Swap {
            key: "$USER$".to_string(),
            kind: SwapKind::All,
            val_template: Some("{{user}}".to_string()),
            ..Default::default()
        },
        Swap {
            key: "SWAP_ME".to_string(),
            kind: SwapKind::Path,
            val: Some("swapped".to_string()),
            ..Default::default()
        },
    ];
    let vars = bag_with("user", "Johnny");
    let swapper = Swapper::with_vars(Some(&swaps), &vars).unwrap();

    // the path-only rule never touches content; the others chain over it
    let source = "tests/fixtures/content/SWAP_ME/hey.txt".to_string();
    let (rendered, count) =
        swapper.render_content(&source, &"it's better not to say don't, $USER$".to_string());
    assert_eq!(rendered, "it's worse not to say, Johnny");
    assert_eq!(count, 3);

    // the path-only rule does rename the destination
    assert_eq!(
        swapper.path(&"tests-out/fixtures/content/SWAP_ME/hey.txt".to_string()),
        "tests-out/fixtures/content/swapped/hey.txt"
    );
}

#[test]
fn test_empty_swaps_leave_everything_alone() {
    let vars = VarBag::new();
    let swapper = Swapper::with_vars(None, &vars).unwrap();
    assert_eq!(swapper.path(&"a/$X$/b".to_string()), "a/$X$/b");
    let (rendered, count) = swapper.render_content(&"p".to_string(), &"anything".to_string());
    assert_eq!(rendered, "anything");
    assert_eq!(count, 0);
}
