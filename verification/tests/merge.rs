use audio_notifier::hooks::{check_existing_hooks, group_is_own_exec, merge_hooks, strip_own};
use audio_notifier::install::build_our_hooks;
use audio_notifier::json::Json;

fn action(cmd: &str) -> Json {
    Json::Obj(vec![
        ("type".to_string(), Json::Str("command".to_string())),
        ("command".to_string(), Json::Str(cmd.to_string())),
    ])
}

fn group(matcher: &str, actions: Vec<Json>) -> Json {
    Json::Obj(vec![
        ("matcher".to_string(), Json::Str(matcher.to_string())),
        ("hooks".to_string(), Json::Arr(actions)),
    ])
}

/// An existing document with a foreign-only hook type and a foreign
/// group under a type this tool manages.
fn foreign_doc() -> Json {
    Json::Obj(vec![
        (
            "PreCommit".to_string(),
            Json::Arr(vec![group("", vec![action("lint.sh")])]),
        ),
        (
            "Stop".to_string(),
            Json::Arr(vec![group("x", vec![action("other-tool.sh")])]),
        ),
    ])
}

#[test]
fn merge_idempotent_on_foreign_document() {
    let ours = build_our_hooks("/home/u");
    let existing = foreign_doc();
    let once = merge_hooks(&existing, &ours);
    let twice = merge_hooks(&once, &ours);
    assert!(once.deep_eq(&twice));
}

#[test]
fn merge_idempotent_on_empty_document() {
    let ours = build_our_hooks("/home/u");
    let existing = Json::Obj(vec![]);
    let once = merge_hooks(&existing, &ours);
    let twice = merge_hooks(&once, &ours);
    assert!(once.deep_eq(&twice));
}

#[test]
fn merge_preserves_foreign_groups_verbatim() {
    let ours = build_our_hooks("/home/u");
    let existing = foreign_doc();
    let merged = merge_hooks(&existing, &ours);

    // The foreign-only hook type is carried over whole.
    let precommit = merged.get("PreCommit").expect("PreCommit kept");
    let original = existing.get("PreCommit").unwrap();
    assert!(precommit.deep_eq(original));

    // The foreign Stop group is appended after our canonical group.
    let stop = merged.get("Stop").expect("Stop present");
    match stop {
        Json::Arr(groups) => {
            assert_eq!(groups.len(), 2);
            assert!(group_is_own_exec(&groups[0]));
            assert!(groups[1].deep_eq(&group("x", vec![action("other-tool.sh")])));
        },
        _ => panic!("expected array"),
    }
}

#[test]
fn merge_keeps_own_groups_single_after_remerge() {
    let ours = build_our_hooks("/home/u");
    let existing = Json::Obj(vec![]);
    let merged = merge_hooks(&existing, &ours);
    for name in ["Notification", "Stop", "PreToolUse", "PostToolUse", "SubagentStop"] {
        match merged.get(name).expect("managed type present") {
            Json::Arr(groups) => assert_eq!(groups.len(), 1, "{}", name),
            _ => panic!("expected array"),
        }
    }
}

#[test]
fn strip_after_merge_leaves_no_own_group() {
    let ours = build_our_hooks("/home/u");
    let existing = foreign_doc();
    let merged = merge_hooks(&existing, &ours);
    let stripped = strip_own(&merged);
    match &stripped {
        Json::Obj(fields) => {
            for (name, value) in fields {
                match value {
                    Json::Arr(groups) => {
                        for g in groups {
                            assert!(!group_is_own_exec(g), "own group left under {}", name);
                        }
                    },
                    _ => panic!("expected array"),
                }
            }
        },
        _ => panic!("expected object"),
    }
    // The foreign groups survive the round trip.
    assert!(stripped.get("PreCommit").is_some());
    assert!(stripped.get("Stop").is_some());
    // Types that held only our groups are gone entirely.
    assert!(stripped.get("Notification").is_none());
    assert!(stripped.get("PreToolUse").is_none());
}

#[test]
fn strip_keeps_originally_empty_types() {
    let doc = Json::Obj(vec![
        ("Empty".to_string(), Json::Arr(vec![])),
        ("Odd".to_string(), Json::Str("not-an-array".to_string())),
    ]);
    let stripped = strip_own(&doc);
    match stripped.get("Empty") {
        Some(Json::Arr(groups)) => assert_eq!(groups.len(), 0),
        _ => panic!("empty type must be kept as-is"),
    }
    match stripped.get("Odd") {
        Some(Json::Str(s)) => assert_eq!(s, "not-an-array"),
        _ => panic!("non-array value must pass through"),
    }
}

#[test]
fn malformed_groups_are_foreign() {
    // No hooks array at all.
    let g1 = Json::Obj(vec![("matcher".to_string(), Json::Str(String::new()))]);
    assert!(!group_is_own_exec(&g1));
    // An action without a command field.
    let g2 = group("", vec![Json::Obj(vec![(
        "type".to_string(),
        Json::Str("command".to_string()),
    )])]);
    assert!(!group_is_own_exec(&g2));
    // A command that does hold the marker.
    let g3 = group("", vec![action("bash /h/.assist/scripts/smart-notify.sh stop")]);
    assert!(group_is_own_exec(&g3));
}

#[test]
fn check_existing_hooks_lists_all_types() {
    let settings = Json::Obj(vec![
        (
            "hooks".to_string(),
            Json::Obj(vec![
                ("A".to_string(), Json::Arr(vec![])),
                ("B".to_string(), Json::Arr(vec![Json::Null])),
            ]),
        ),
        ("other".to_string(), Json::Bool(true)),
    ]);
    let names = check_existing_hooks(&settings);
    assert_eq!(names, vec!["A".to_string(), "B".to_string()]);
    let empty = Json::Obj(vec![]);
    assert_eq!(check_existing_hooks(&empty).len(), 0);
}

#[test]
fn merge_with_non_object_existing_yields_ours() {
    let ours = build_our_hooks("/home/u");
    let existing = Json::Arr(vec![Json::Num("1".to_string()), Json::Num("2".to_string())]);
    let merged = merge_hooks(&existing, &ours);
    assert!(merged.deep_eq(&ours));
}
