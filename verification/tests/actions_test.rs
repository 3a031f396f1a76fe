use backpack::actions::{
    Action, ActionHook, ActionRunner, Interaction, InteractionKind, Reply, Response,
};
use backpack::varbag::VarBag;

fn plain_action(name: &str) -> Action {
    Action {
        name: name.to_string(),
        interaction: None,
        run: None,
        ignore_exit: false,
        break_if_cancel: false,
        capture: false,
        hook: ActionHook::Before,
    }
}

fn ask(kind: InteractionKind, prompt: &str, out: Option<&str>, options: Option<Vec<&str>>) -> Interaction {
    Interaction {
        kind,
        prompt: prompt.to_string(),
        out: out.map(|s| s.to_string()),
        options: options.map(|v| v.iter().map(|s| s.to_string()).collect()),
    }
}

#[test]
fn test_interaction() {
    let actions = vec![
        Action {
            interaction: Some(ask(InteractionKind::Confirm, "are you sure?", Some("confirm"), None)),
            ..plain_action("confirm-action")
        },
        Action {
            interaction: Some(ask(InteractionKind::Input, "which city?", Some("city"), None)),
            ..plain_action("input-action")
        },
        Action {
            interaction: Some(ask(
                InteractionKind::Select,
                "select transport",
                None,
                Some(vec!["bus", "train", "walk"]),
            )),
            ..plain_action("select-action")
        },
    ];
    let replies = vec![
        Reply::Bool(true),
        Reply::Text("tlv".to_string()),
        Reply::Text("train".to_string()),
    ];
    let mut runner = ActionRunner::with_events(replies);
    let mut bag = VarBag::new();
    let results = runner
        .run(&actions, Some(&".".to_string()), &mut bag, ActionHook::Before)
        .unwrap();

    assert_eq!(results.len(), 3);
    assert_eq!(results[0].name, "confirm-action");
    assert_eq!(results[0].response, Response::Text("true".to_string()));
    assert!(results[0].run.is_none());
    assert_eq!(results[1].response, Response::Text("tlv".to_string()));
    assert_eq!(results[2].response, Response::Text("train".to_string()));

    assert_eq!(bag.get(&"confirm".to_string()).map(String::as_str), Some("true"));
    assert_eq!(bag.get(&"city".to_string()).map(String::as_str), Some("tlv"));
    assert_eq!(bag.len(), 2);
}

#[test]
fn test_run_script() {
    let actions = vec![Action {
        interaction: Some(ask(InteractionKind::Input, "which city?", Some("city"), None)),
        run: Some("echo {{city}}".to_string()),
        capture: true,
        ..plain_action("input-action")
    }];
    let replies = vec![Reply::Text("tlv".to_string())];
    let mut runner = ActionRunner::with_events(replies);
    let mut bag = VarBag::new();
    let results = runner
        .run(&actions, Some(&".".to_string()), &mut bag, ActionHook::Before)
        .unwrap();

    assert_eq!(results.len(), 1);
    let run = results[0].run.as_ref().unwrap();
    assert_eq!(run.script, "echo tlv");
    assert_eq!(run.code, 0);
    assert_eq!(run.out, "tlv\n");
    assert_eq!(results[0].response, Response::Text("tlv".to_string()));
    assert_eq!(bag.get(&"city".to_string()).map(String::as_str), Some("tlv"));
}

#[test]
fn test_confirm_no_with_break_stops_the_run() {
    let actions = vec![
        Action {
            interaction: Some(ask(InteractionKind::Confirm, "are you sure?", None, None)),
            break_if_cancel: true,
            ..plain_action("test confirm")
        },
        Action {
            interaction: Some(ask(InteractionKind::Input, "name of your thing", Some("name"), None)),
            run: Some("echo {{name}}.txt".to_string()),
            capture: true,
            ..plain_action("grab input and run")
        },
    ];
    let replies = vec![Reply::Bool(false)];
    let mut runner = ActionRunner::with_events(replies);
    let mut bag = VarBag::new();
    let r = runner.run(&actions, Some(&".".to_string()), &mut bag, ActionHook::Before);
    assert_eq!(r.unwrap_err().message(), "stop requested (break_if_cancel)");
    // the later action never ran: its output variable was never stored
    assert_eq!(bag.len(), 0);
}

#[test]
fn test_confirm_no_without_break_skips_only_the_command() {
    let actions = vec![
        Action {
            interaction: Some(ask(InteractionKind::Confirm, "are you sure?", None, None)),
            run: Some("echo skipped".to_string()),
            capture: true,
            ..plain_action("test confirm")
        },
        Action {
            interaction: Some(ask(InteractionKind::Input, "name of your thing", Some("name"), None)),
            run: Some("echo {{name}}".to_string()),
            capture: true,
            ..plain_action("grab input and run")
        },
    ];
    let replies = vec![Reply::Bool(false), Reply::Text("tlv".to_string())];
    let mut runner = ActionRunner::with_events(replies);
    let mut bag = VarBag::new();
    let results = runner
        .run(&actions, Some(&".".to_string()), &mut bag, ActionHook::Before)
        .unwrap();
    assert_eq!(results.len(), 2);
    assert_eq!(results[0].response, Response::Cancel);
    assert!(results[0].run.is_none());
    assert_eq!(results[1].run.as_ref().unwrap().script, "echo tlv");
}

#[test]
fn test_failing_command_stops_unless_ignored() {
    let failing = vec![Action {
        run: Some("exit 3".to_string()),
        capture: true,
        ..plain_action("fails")
    }];
    let mut runner = ActionRunner::with_events(Vec::new());
    let mut bag = VarBag::new();
    let r = runner.run(&failing, Some(&".".to_string()), &mut bag, ActionHook::Before);
    assert_eq!(
        r.unwrap_err().message(),
        "in action 'fails': command returned exit code '3'"
    );

    let ignored = vec![Action {
        run: Some("exit 3".to_string()),
        capture: true,
        ignore_exit: true,
        ..plain_action("fails")
    }];
    let mut runner = ActionRunner::with_events(Vec::new());
    let results = runner
        .run(&ignored, Some(&".".to_string()), &mut bag, ActionHook::Before)
        .unwrap();
    assert_eq!(results[0].run.as_ref().unwrap().code, 3);
}

#[test]
fn test_hooks_partition_the_actions() {
    let actions = vec![
        Action { run: Some("echo before".to_string()), capture: true, ..plain_action("b") },
        Action {
            run: Some("echo after".to_string()),
            capture: true,
            hook: ActionHook::After,
            ..plain_action("a")
        },
    ];
    let mut runner = ActionRunner::with_events(Vec::new());
    let mut bag = VarBag::new();
    let before = runner
        .run(&actions, Some(&".".to_string()), &mut bag, ActionHook::Before)
        .unwrap();
    assert_eq!(before.len(), 1);
    assert_eq!(before[0].name, "b");
    assert_eq!(before[0].response, Response::Absent);
    let after = runner
        .run(&actions, Some(&".".to_string()), &mut bag, ActionHook::After)
        .unwrap();
    assert_eq!(after.len(), 1);
    assert_eq!(after[0].name, "a");
}

#[test]
fn test_varbag_order_and_overwrite() {
    let mut bag = VarBag::new();
    bag.insert("b".to_string(), "2".to_string());
    bag.insert("a".to_string(), "1".to_string());
    bag.insert("b".to_string(), "3".to_string());
    assert_eq!(bag.len(), 2);
    let (k0, v0) = bag.entry_at(0);
    assert_eq!((k0.as_str(), v0.as_str()), ("a", "1"));
    let (k1, v1) = bag.entry_at(1);
    assert_eq!((k1.as_str(), v1.as_str()), ("b", "3"));
}

#[test]
fn test_scripted_replies_exhausted() {
    let actions = vec![Action {
        interaction: Some(ask(InteractionKind::Input, "which city?", Some("city"), None)),
        ..plain_action("input-action")
    }];
    let mut runner = ActionRunner::with_events(Vec::new());
    let mut bag = VarBag::new();
    let r = runner.run(&actions, None, &mut bag, ActionHook::Before);
    assert!(r.is_err());
}
