//! The installer: builds this tool's canonical hook set, merges it
//! into the shared settings document with a backup beforehand, enables
//! the sounds sentinel, seeds a default configuration, and records an
//! installation manifest.

use vstd::prelude::*;

use crate::backup::{backup_file_path, create_backup};
use crate::codec::{
    json_parse, json_pretty, json_printable, lemma_printable_lookup, lemma_printable_merge,
    lemma_printable_set_fields, parse_json, to_pretty_checked,
};
use crate::hooks::{
    action_is_own, canonical_hooks, check_existing_hooks, group_is_own, hook_type_names,
    marker, merge_hooks, merge_hooks_spec,
};
use crate::json::{
    field_views, json_get, lemma_arr_view, lemma_lookup_after_set, lemma_lookup_is_field_value,
    lemma_obj_view, lemma_set_fields_twice, set_fields, views_of, Json, JsonV,
};
use crate::manifest::{manifest_json, InstallationChanges, InstallationManifest};
use crate::paths::{
    get_config_path, get_manifest_path, get_sounds_enabled_path, settings_path,
    uninstalled_marker_path,
};
use crate::text::{
    has_substring, join_comma, join_comma_spec, matches_at, str_eq, str_views, u64_to_string,
};
use crate::vfs::FileStore;
use crate::LibError;

verus! {

/// One hook action: a command entry.
pub open spec fn action_spec(cmd: Seq<char>) -> JsonV {
    JsonV::Obj(seq![("type"@, JsonV::Str("command"@)), ("command"@, JsonV::Str(cmd))])
}

/// One hook group: a matcher and its actions.
pub open spec fn group_spec(matcher: Seq<char>, actions: Seq<JsonV>) -> JsonV {
    JsonV::Obj(seq![("matcher"@, JsonV::Str(matcher)), ("hooks"@, JsonV::Arr(actions))])
}

/// The command that runs the notification script for an event.
pub open spec fn notify_cmd(home: Seq<char>, suffix: Seq<char>) -> Seq<char> {
    "bash "@ + home + suffix
}

/// The command of the Stop hook that appends the raw event input to a
/// log file.
pub open spec fn stop_log_cmd(home: Seq<char>) -> Seq<char> {
    "jq -c -r '.' >> "@ + home + "/.assist/stop-input.jsonl || cat >> "@ + home
        + "/.assist/stop-input.jsonl"@
}

/// The names of the hook types this tool manages, in order.
pub open spec fn our_hook_names() -> Seq<Seq<char>> {
    seq!["Notification"@, "Stop"@, "PreToolUse"@, "PostToolUse"@, "SubagentStop"@]
}

/// The canonical hooks mapping this tool installs for a home
/// directory.
pub open spec fn our_hooks_spec(home: Seq<char>) -> JsonV {
    JsonV::Obj(
        seq![
            (
                "Notification"@,
                JsonV::Arr(
                    seq![
                        group_spec(
                            ""@,
                            seq![
                                action_spec(
                                    notify_cmd(
                                        home,
                                        "/.assist/scripts/smart-notify.sh notification"@,
                                    ),
                                ),
                            ],
                        ),
                    ],
                ),
            ),
            (
                "Stop"@,
                JsonV::Arr(
                    seq![
                        group_spec(
                            ".*"@,
                            seq![
                                action_spec(stop_log_cmd(home)),
                                action_spec(
                                    notify_cmd(home, "/.assist/scripts/smart-notify.sh stop"@),
                                ),
                            ],
                        ),
                    ],
                ),
            ),
            (
                "PreToolUse"@,
                JsonV::Arr(
                    seq![
                        group_spec(
                            ""@,
                            seq![
                                action_spec(
                                    notify_cmd(
                                        home,
                                        "/.assist/scripts/smart-notify.sh pre_tool_use"@,
                                    ),
                                ),
                            ],
                        ),
                    ],
                ),
            ),
            (
                "PostToolUse"@,
                JsonV::Arr(
                    seq![
                        group_spec(
                            ""@,
                            seq![
                                action_spec(
                                    notify_cmd(
                                        home,
                                        "/.assist/scripts/smart-notify.sh post_tool_use"@,
                                    ),
                                ),
                            ],
                        ),
                    ],
                ),
            ),
            (
                "SubagentStop"@,
                JsonV::Arr(
                    seq![
                        group_spec(
                            ""@,
                            seq![
                                action_spec(
                                    notify_cmd(
                                        home,
                                        "/.assist/scripts/smart-notify.sh subagent_stop"@,
                                    ),
                                ),
                            ],
                        ),
                    ],
                ),
            ),
        ],
    )
}

/// An action document holds only strings.
proof fn lemma_action_printable(c: Seq<char>)
    ensures
        json_printable(action_spec(c)),
{
    let a = action_spec(c);
    assert(forall|i: int| 0 <= i < a->Obj_0.len() ==> json_printable((#[trigger] a->Obj_0[i]).1));
}

/// A group of printable actions is printable.
proof fn lemma_group_printable(m: Seq<char>, actions: Seq<JsonV>)
    requires
        forall|i: int| 0 <= i < actions.len() ==> json_printable(#[trigger] actions[i]),
    ensures
        json_printable(group_spec(m, actions)),
{
    let g = group_spec(m, actions);
    assert(g->Obj_0[0].1 == JsonV::Str(m));
    assert(g->Obj_0[1].1 == JsonV::Arr(actions));
    assert(forall|i: int| 0 <= i < g->Obj_0.len() ==> json_printable((#[trigger] g->Obj_0[i]).1));
}

/// The canonical hook set holds no number node: always serializable.
pub proof fn lemma_our_hooks_printable(home: Seq<char>)
    ensures
        json_printable(our_hooks_spec(home)),
{
    let o = our_hooks_spec(home);
    let of = o->Obj_0;
    assert forall|k: int| 0 <= k < of.len() implies json_printable((#[trigger] of[k]).1) by {
        if k == 1 {
            let acts = seq![
                action_spec(stop_log_cmd(home)),
                action_spec(notify_cmd(home, "/.assist/scripts/smart-notify.sh stop"@)),
            ];
            lemma_action_printable(stop_log_cmd(home));
            lemma_action_printable(notify_cmd(home, "/.assist/scripts/smart-notify.sh stop"@));
            assert(forall|n: int| 0 <= n < acts.len() ==> json_printable(#[trigger] acts[n]));
            lemma_group_printable(".*"@, acts);
            assert(of[k].1 == JsonV::Arr(seq![group_spec(".*"@, acts)]));
            assert(forall|n: int|
                0 <= n < of[k].1->Arr_0.len() ==> json_printable(#[trigger] of[k].1->Arr_0[n]));
        } else {
            let cmd = if k == 0 {
                notify_cmd(home, "/.assist/scripts/smart-notify.sh notification"@)
            } else if k == 2 {
                notify_cmd(home, "/.assist/scripts/smart-notify.sh pre_tool_use"@)
            } else if k == 3 {
                notify_cmd(home, "/.assist/scripts/smart-notify.sh post_tool_use"@)
            } else {
                notify_cmd(home, "/.assist/scripts/smart-notify.sh subagent_stop"@)
            };
            let acts = seq![action_spec(cmd)];
            lemma_action_printable(cmd);
            assert(forall|n: int| 0 <= n < acts.len() ==> json_printable(#[trigger] acts[n]));
            lemma_group_printable(""@, acts);
            assert(of[k].1 == JsonV::Arr(seq![group_spec(""@, acts)]));
            assert(forall|n: int|
                0 <= n < of[k].1->Arr_0.len() ==> json_printable(#[trigger] of[k].1->Arr_0[n]));
        }
    }
}

/// A substring of the right-hand part occurs in the whole.
proof fn lemma_substring_append_left(a: Seq<char>, b: Seq<char>, n: Seq<char>)
    requires
        has_substring(b, n),
    ensures
        has_substring(a + b, n),
{
    let i = choose|i: int| matches_at(b, n, i);
    assert((a + b).subrange(a.len() + i, a.len() + i + n.len() as int) =~= b.subrange(
        i,
        i + n.len() as int,
    ));
    assert(matches_at(a + b, n, a.len() + i));
}

/// The notification command contains the marker, wherever home points.
proof fn lemma_notify_cmd_own(home: Seq<char>, suffix: Seq<char>, at: int)
    requires
        matches_at(suffix, marker(), at),
    ensures
        has_substring(notify_cmd(home, suffix), marker()),
{
    assert(has_substring(suffix, marker()));
    lemma_substring_append_left("bash "@ + home, suffix, marker());
    assert("bash "@ + home + suffix =~= ("bash "@ + home) + suffix);
}

/// The canonical hook set is well-formed: uniquely named array-valued
/// fields, every group this tool's own.
pub proof fn lemma_our_hooks_canonical(home: Seq<char>)
    ensures
        canonical_hooks(our_hooks_spec(home)),
{
    let o = our_hooks_spec(home);
    let of = o->Obj_0;
    reveal_strlit("Notification");
    reveal_strlit("Stop");
    reveal_strlit("PreToolUse");
    reveal_strlit("PostToolUse");
    reveal_strlit("SubagentStop");
    assert(crate::json::fields_unique(of)) by {
        assert("Notification"@.len() == 12);
        assert("Stop"@.len() == 4);
        assert("PreToolUse"@.len() == 10);
        assert("PostToolUse"@.len() == 11);
        assert("SubagentStop"@.len() == 12);
        assert("Notification"@[0] == 'N');
        assert("SubagentStop"@[0] == 'S');
    }
    assert(forall|k: int| 0 <= k < of.len() ==> (#[trigger] of[k]).1 is Arr);
    reveal_strlit("smart-notify.sh");
    reveal_strlit("/.assist/scripts/smart-notify.sh notification");
    reveal_strlit("/.assist/scripts/smart-notify.sh stop");
    reveal_strlit("/.assist/scripts/smart-notify.sh pre_tool_use");
    reveal_strlit("/.assist/scripts/smart-notify.sh post_tool_use");
    reveal_strlit("/.assist/scripts/smart-notify.sh subagent_stop");
    assert(("/.assist/scripts/smart-notify.sh notification"@).subrange(17, 32) =~= marker());
    lemma_notify_cmd_own(home, "/.assist/scripts/smart-notify.sh notification"@, 17);
    assert(("/.assist/scripts/smart-notify.sh stop"@).subrange(17, 32) =~= marker());
    lemma_notify_cmd_own(home, "/.assist/scripts/smart-notify.sh stop"@, 17);
    assert(("/.assist/scripts/smart-notify.sh pre_tool_use"@).subrange(17, 32) =~= marker());
    lemma_notify_cmd_own(home, "/.assist/scripts/smart-notify.sh pre_tool_use"@, 17);
    assert(("/.assist/scripts/smart-notify.sh post_tool_use"@).subrange(17, 32) =~= marker());
    lemma_notify_cmd_own(home, "/.assist/scripts/smart-notify.sh post_tool_use"@, 17);
    assert(("/.assist/scripts/smart-notify.sh subagent_stop"@).subrange(17, 32) =~= marker());
    lemma_notify_cmd_own(home, "/.assist/scripts/smart-notify.sh subagent_stop"@, 17);
    assert forall|k: int, n: int|
        0 <= k < of.len() && 0 <= n < of[k].1->Arr_0.len() implies group_is_own(
        #[trigger] of[k].1->Arr_0[n],
    ) by {
        reveal_strlit("matcher");
        reveal_strlit("hooks");
        reveal_strlit("type");
        reveal_strlit("command");
        assert("matcher"@.len() == 7);
        assert("hooks"@.len() == 5);
        assert("type"@.len() == 4);
        assert("command"@.len() == 7);
        assert("type"@[0] == 't');
        assert("command"@[0] == 'c');
        let g = of[k].1->Arr_0[n];
        assert(n == 0);
        if k == 1 {
            let acts = seq![
                action_spec(stop_log_cmd(home)),
                action_spec(notify_cmd(home, "/.assist/scripts/smart-notify.sh stop"@)),
            ];
            assert(g == group_spec(".*"@, acts));
            lemma_group_spec_own(".*"@, acts, 1);
        } else {
            let cmd = if k == 0 {
                notify_cmd(home, "/.assist/scripts/smart-notify.sh notification"@)
            } else if k == 2 {
                notify_cmd(home, "/.assist/scripts/smart-notify.sh pre_tool_use"@)
            } else if k == 3 {
                notify_cmd(home, "/.assist/scripts/smart-notify.sh post_tool_use"@)
            } else {
                notify_cmd(home, "/.assist/scripts/smart-notify.sh subagent_stop"@)
            };
            let acts = seq![action_spec(cmd)];
            assert(g == group_spec(if k == 1 { ".*"@ } else { ""@ }, acts));
            lemma_group_spec_own(if k == 1 { ".*"@ } else { ""@ }, acts, 0);
        }
    }
}

/// A group whose `n`-th action's command holds the marker is this
/// tool's.
proof fn lemma_group_spec_own(matcher: Seq<char>, actions: Seq<JsonV>, n: int)
    requires
        0 <= n < actions.len(),
        exists|c: Seq<char>|
            actions[n] == action_spec(c) && has_substring(c, marker()),
    ensures
        group_is_own(group_spec(matcher, actions)),
{
    reveal_strlit("matcher");
    reveal_strlit("hooks");
    reveal_strlit("type");
    reveal_strlit("command");
    assert("matcher"@.len() == 7);
    assert("hooks"@.len() == 5);
    assert("type"@.len() == 4);
    assert("command"@.len() == 7);
    assert("type"@[0] == 't');
    assert("command"@[0] == 'c');
    let g = group_spec(matcher, actions);
    assert(g->Obj_0[0] == ("matcher"@, JsonV::Str(matcher)));
    assert(g->Obj_0[1] == ("hooks"@, JsonV::Arr(actions)));
    assert(g->Obj_0.drop_first()[0] == g->Obj_0[1]);
    assert(g->Obj_0.drop_first().len() == 1);
    assert(crate::json::lookup_fields(g->Obj_0.drop_first(), "hooks"@) == Some(
        JsonV::Arr(actions),
    ));
    assert(json_get(g, "hooks"@) == Some(JsonV::Arr(actions)));
    let c = choose|c: Seq<char>|
        actions[n] == action_spec(c) && has_substring(c, marker());
    let a = action_spec(c);
    assert(a->Obj_0[0] == ("type"@, JsonV::Str("command"@)));
    assert(a->Obj_0[1] == ("command"@, JsonV::Str(c)));
    assert(a->Obj_0.drop_first()[0] == a->Obj_0[1]);
    assert(a->Obj_0.drop_first().len() == 1);
    assert(crate::json::lookup_fields(a->Obj_0.drop_first(), "command"@) == Some(
        JsonV::Str(c),
    ));
    assert(json_get(a, "command"@) == Some(JsonV::Str(c)));
    let hseq = json_get(g, "hooks"@)->0->Arr_0;
    assert(hseq == actions);
    assert(0 <= n < hseq.len() && action_is_own(hseq[n]));
    assert(group_is_own(g));
}

// ---------------------------------------------------------------------
// The executable canonical hook set.
// ---------------------------------------------------------------------

fn make_action(cmd: String) -> (r: Json)
    ensures
        r@ == action_spec(cmd@),
{
    let mut fields: Vec<(String, Json)> = Vec::new();
    fields.push(("type".to_owned(), Json::Str("command".to_owned())));
    fields.push(("command".to_owned(), Json::Str(cmd)));
    proof {
        lemma_obj_view(fields);
        assert(field_views(fields@) =~= action_spec(cmd@)->Obj_0);
    }
    Json::Obj(fields)
}

fn make_group(matcher: &str, actions: Vec<Json>) -> (r: Json)
    ensures
        r@ == group_spec(matcher@, views_of(actions@)),
{
    proof {
        lemma_arr_view(actions);
    }
    let mut fields: Vec<(String, Json)> = Vec::new();
    fields.push(("matcher".to_owned(), Json::Str(matcher.to_owned())));
    fields.push(("hooks".to_owned(), Json::Arr(actions)));
    proof {
        lemma_obj_view(fields);
        assert(field_views(fields@) =~= group_spec(matcher@, views_of(actions@))->Obj_0);
    }
    Json::Obj(fields)
}

fn notify_command(home: &str, suffix: &str) -> (r: String)
    ensures
        r@ == notify_cmd(home@, suffix@),
{
    let r = "bash ".to_owned().concat(home).concat(suffix);
    assert(r@ =~= notify_cmd(home@, suffix@));
    r
}

fn singleton_arr(g: Json) -> (r: Json)
    ensures
        r@ == JsonV::Arr(seq![g@]),
{
    let mut v: Vec<Json> = Vec::new();
    v.push(g);
    proof {
        lemma_arr_view(v);
        assert(views_of(v@) =~= seq![v@[0]@]);
    }
    Json::Arr(v)
}

/// Build the canonical hooks mapping for a home directory: one group
/// per managed hook type, each command running the installed
/// notification script, and for the Stop type an extra action that
/// appends the raw event input to a log file.
pub fn build_our_hooks(home: &str) -> (r: Json)
    ensures
        r@ == our_hooks_spec(home@),
{
    let mut entries: Vec<(String, Json)> = Vec::new();

    let a1 = make_action(notify_command(home, "/.assist/scripts/smart-notify.sh notification"));
    let mut acts1: Vec<Json> = Vec::new();
    acts1.push(a1);
    proof {
        assert(views_of(acts1@) =~= seq![acts1@[0]@]);
    }
    let g1 = make_group("", acts1);
    entries.push(("Notification".to_owned(), singleton_arr(g1)));

    let slog = "jq -c -r '.' >> ".to_owned().concat(home).concat(
        "/.assist/stop-input.jsonl || cat >> ",
    ).concat(home).concat("/.assist/stop-input.jsonl");
    assert(slog@ =~= stop_log_cmd(home@));
    let a2a = make_action(slog);
    let a2b = make_action(notify_command(home, "/.assist/scripts/smart-notify.sh stop"));
    let mut acts2: Vec<Json> = Vec::new();
    acts2.push(a2a);
    acts2.push(a2b);
    proof {
        assert(views_of(acts2@) =~= seq![acts2@[0]@, acts2@[1]@]);
    }
    let g2 = make_group(".*", acts2);
    entries.push(("Stop".to_owned(), singleton_arr(g2)));

    let a3 = make_action(notify_command(home, "/.assist/scripts/smart-notify.sh pre_tool_use"));
    let mut acts3: Vec<Json> = Vec::new();
    acts3.push(a3);
    proof {
        assert(views_of(acts3@) =~= seq![acts3@[0]@]);
    }
    let g3 = make_group("", acts3);
    entries.push(("PreToolUse".to_owned(), singleton_arr(g3)));

    let a4 = make_action(notify_command(home, "/.assist/scripts/smart-notify.sh post_tool_use"));
    let mut acts4: Vec<Json> = Vec::new();
    acts4.push(a4);
    proof {
        assert(views_of(acts4@) =~= seq![acts4@[0]@]);
    }
    let g4 = make_group("", acts4);
    entries.push(("PostToolUse".to_owned(), singleton_arr(g4)));

    let a5 = make_action(notify_command(home, "/.assist/scripts/smart-notify.sh subagent_stop"));
    let mut acts5: Vec<Json> = Vec::new();
    acts5.push(a5);
    proof {
        assert(views_of(acts5@) =~= seq![acts5@[0]@]);
    }
    let g5 = make_group("", acts5);
    entries.push(("SubagentStop".to_owned(), singleton_arr(g5)));

    proof {
        lemma_obj_view(entries);
        assert(field_views(entries@) =~= our_hooks_spec(home@)->Obj_0);
    }
    Json::Obj(entries)
}

// ---------------------------------------------------------------------
// The install orchestration over the file-store model.
// ---------------------------------------------------------------------

/// A hook type this tool manages.
pub open spec fn managed_name(n: Seq<char>) -> bool {
    ||| n == "Notification"@
    ||| n == "Stop"@
    ||| n == "PreToolUse"@
    ||| n == "PostToolUse"@
    ||| n == "SubagentStop"@
}

/// The hook types of the existing document that this tool does not
/// manage, in their original order.
pub open spec fn preserved_names(names: Seq<Seq<char>>) -> Seq<Seq<char>> {
    names.filter(|n: Seq<char>| !managed_name(n))
}

/// The settings document the installer works on: the parsed settings
/// file, an empty object where none (or a JSON `null`) was stored, and
/// nothing where the stored text is not a JSON object document.
pub open spec fn parsed_settings(m: Map<Seq<char>, Seq<char>>, sp: Seq<char>) -> Option<JsonV> {
    if !m.contains_key(sp) {
        Some(JsonV::Obj(Seq::empty()))
    } else {
        match json_parse(m[sp]) {
            Some(d) => if d is Obj {
                Some(d)
            } else if d is Null {
                Some(JsonV::Obj(Seq::empty()))
            } else {
                None
            },
            None => None,
        }
    }
}

/// The settings document after an install: the old document with its
/// `hooks` key set to the merge of the old hooks with the canonical
/// set.
pub open spec fn installed_doc(doc: JsonV, home: Seq<char>) -> JsonV {
    let old_hooks = match json_get(doc, "hooks"@) {
        Some(h) => h,
        None => JsonV::Obj(Seq::empty()),
    };
    JsonV::Obj(set_fields(doc->Obj_0, "hooks"@, merge_hooks_spec(old_hooks, our_hooks_spec(home))))
}

/// The string sequence of JSON string nodes.
pub open spec fn seq_strs(xs: Seq<Seq<char>>) -> Seq<JsonV> {
    Seq::new(xs.len(), |i: int| JsonV::Str(xs[i]))
}

/// The manifest document an install writes.
pub open spec fn manifest_doc_spec(
    now: Seq<char>,
    backup: Seq<char>,
    files: Seq<Seq<char>>,
    added: Seq<Seq<char>>,
    preserved: Seq<Seq<char>>,
) -> JsonV {
    JsonV::Obj(
        seq![
            ("installed_at"@, JsonV::Str(now)),
            ("backup_path"@, JsonV::Str(backup)),
            ("app_version"@, JsonV::Str("1.0.0"@)),
            (
                "changes"@,
                JsonV::Obj(
                    seq![
                        ("files_created"@, JsonV::Arr(seq_strs(files))),
                        ("hooks_added"@, JsonV::Arr(seq_strs(added))),
                        ("existing_hooks_preserved"@, JsonV::Arr(seq_strs(preserved))),
                    ],
                ),
            ),
        ],
    )
}

/// The paths an install records as created.
pub open spec fn files_created_spec(
    home: Seq<char>,
    voice_files: Seq<Seq<char>>,
    terminal_notifier: bool,
    config_written: bool,
) -> Seq<Seq<char>> {
    seq![
        home + "/.assist/scripts/smart-notify.sh"@,
        home + "/.assist/scripts/select-sound.sh"@,
        home + "/.assist/scripts/read-config.sh"@,
        home + "/.assist/scripts/audio-notifier-uninstall.sh"@,
        home + "/.assist/.sounds-enabled"@,
    ] + voice_files + (if terminal_notifier {
        seq![home + "/.assist/terminal-notifier.app"@]
    } else {
        Seq::empty()
    }) + (if config_written {
        seq![home + "/.assist/audio-notifier.yaml"@]
    } else {
        Seq::empty()
    })
}

/// The backup path an install records: empty where no settings file
/// existed.
pub open spec fn recorded_backup(m: Map<Seq<char>, Seq<char>>, home: Seq<char>, ts: nat) -> Seq<
    char,
> {
    if m.contains_key(home + "/.assist/settings.json"@) {
        backup_file_path(home, ts)
    } else {
        Seq::empty()
    }
}

/// The file store after a successful install.
pub open spec fn installed_map(
    m0: Map<Seq<char>, Seq<char>>,
    home: Seq<char>,
    ts: nat,
    now: Seq<char>,
    voice_files: Seq<Seq<char>>,
    terminal_notifier: bool,
    yaml: Seq<char>,
) -> Map<Seq<char>, Seq<char>> {
    let sp = home + "/.assist/settings.json"@;
    let doc = parsed_settings(m0, sp)->0;
    let config_written = !m0.contains_key(home + "/.assist/audio-notifier.yaml"@);
    let mdoc = manifest_doc_spec(
        now,
        recorded_backup(m0, home, ts),
        files_created_spec(home, voice_files, terminal_notifier, config_written),
        our_hook_names(),
        preserved_names(hook_type_names(doc)),
    );
    let m1 = m0.remove(home + "/.assist/.uninstalled"@);
    let m2 = if m0.contains_key(sp) {
        m1.insert(backup_file_path(home, ts), m0[sp])
    } else {
        m1
    };
    let m3 = m2.insert(sp, json_pretty(installed_doc(doc, home)));
    let m4 = m3.insert(home + "/.assist/.sounds-enabled"@, Seq::empty());
    let m5 = if config_written {
        m4.insert(home + "/.assist/audio-notifier.yaml"@, yaml)
    } else {
        m4
    };
    m5.insert(home + "/.assist/audio-notifier-install.json"@, json_pretty(mdoc))
}

/// The summary message of a successful install.
pub open spec fn install_message_spec(existing: Seq<Seq<char>>) -> Seq<char> {
    if existing.len() > 0 {
        "Installation complete! Audio notifications are now active."@
            + "\n\nExisting hooks preserved: "@ + join_comma_spec(preserved_names(existing))
    } else {
        "Installation complete! Audio notifications are now active."@
    }
}

/// Reinstall changes nothing: the settings document an install writes
/// is a fixed point of installing again.
pub proof fn lemma_installed_doc_idempotent(doc: JsonV, home: Seq<char>)
    requires
        doc is Obj,
    ensures
        installed_doc(installed_doc(doc, home), home) == installed_doc(doc, home),
{
    let o = our_hooks_spec(home);
    lemma_our_hooks_canonical(home);
    let h0 = match json_get(doc, "hooks"@) {
        Some(h) => h,
        None => JsonV::Obj(Seq::empty()),
    };
    let m1 = crate::hooks::merge_hooks_spec(h0, o);
    let d1 = installed_doc(doc, home);
    lemma_lookup_after_set(doc->Obj_0, "hooks"@, m1);
    assert(json_get(d1, "hooks"@) == Some(m1));
    crate::hooks::lemma_merge_idempotent(h0, o);
    assert(crate::hooks::merge_hooks_spec(m1, o) == m1);
    lemma_set_fields_twice(doc->Obj_0, "hooks"@, m1);
    assert(installed_doc(d1, home) == JsonV::Obj(
        set_fields(set_fields(doc->Obj_0, "hooks"@, m1), "hooks"@, m1),
    ));
}

/// Foreign preservation at the install level: a foreign hook group
/// standing in the old settings document appears unchanged, under its
/// hook type, in the document an install writes.
pub proof fn lemma_installed_doc_preserves_foreign(
    doc: JsonV,
    home: Seq<char>,
    t: Seq<char>,
    i: int,
)
    requires
        doc is Obj,
        json_get(doc, "hooks"@) is Some,
        json_get(doc, "hooks"@)->0 is Obj,
        json_get(json_get(doc, "hooks"@)->0, t) is Some,
        json_get(json_get(doc, "hooks"@)->0, t)->0 is Arr,
        0 <= i < json_get(json_get(doc, "hooks"@)->0, t)->0->Arr_0.len(),
        crate::hooks::is_foreign(json_get(json_get(doc, "hooks"@)->0, t)->0->Arr_0[i]),
    ensures
        json_get(installed_doc(doc, home), "hooks"@) is Some,
        json_get(json_get(installed_doc(doc, home), "hooks"@)->0, t) is Some,
        json_get(json_get(installed_doc(doc, home), "hooks"@)->0, t)->0 is Arr,
        json_get(json_get(installed_doc(doc, home), "hooks"@)->0, t)->0->Arr_0.contains(
            json_get(json_get(doc, "hooks"@)->0, t)->0->Arr_0[i],
        ),
{
    let o = our_hooks_spec(home);
    lemma_our_hooks_canonical(home);
    let h = json_get(doc, "hooks"@)->0;
    let m1 = crate::hooks::merge_hooks_spec(h, o);
    lemma_lookup_after_set(doc->Obj_0, "hooks"@, m1);
    assert(json_get(installed_doc(doc, home), "hooks"@) == Some(m1));
    if json_get(o, t) is Some {
        lemma_lookup_is_field_value(o->Obj_0, t);
    }
    crate::hooks::lemma_merge_preserves_foreign(h, o, t, i);
}

/// Hook types of the old document that this tool does not manage are
/// named by the preserved list the manifest records.
pub proof fn lemma_preserved_names_keep(names: Seq<Seq<char>>, k: int)
    requires
        0 <= k < names.len(),
        !managed_name(names[k]),
    ensures
        preserved_names(names).contains(names[k]),
    decreases names.len(),
{
    reveal_with_fuel(Seq::filter, 1);
    if k == names.len() - 1 {
        assert(names.last() == names[k]);
        let out = preserved_names(names);
        assert(out.last() == names[k]);
    } else {
        assert(forall|n: int|
            0 <= n < names.drop_last().len() ==> names.drop_last()[n] == names[n]);
        lemma_preserved_names_keep(names.drop_last(), k);
        let prev = preserved_names(names.drop_last());
        let n = choose|n: int| 0 <= n < prev.len() && prev[n] == names[k];
        assert(preserved_names(names)[n] == names[k]);
    }
}

/// Whether the hook type name is one this tool manages.
fn is_managed(name: &str) -> (r: bool)
    ensures
        r == managed_name(name@),
{
    str_eq(name, "Notification") || str_eq(name, "Stop") || str_eq(name, "PreToolUse") || str_eq(
        name,
        "PostToolUse",
    ) || str_eq(name, "SubagentStop")
}

/// The hook types of `names` that this tool does not manage.
#[verifier::loop_isolation(false)]
fn preserved_list(names: &Vec<String>) -> (r: Vec<String>)
    ensures
        str_views(r@) == preserved_names(str_views(names@)),
{
    let mut out: Vec<String> = Vec::new();
    let mut i: usize = 0;
    proof {
        reveal_with_fuel(Seq::filter, 1);
        assert(str_views(names@).take(0) =~= Seq::<Seq<char>>::empty());
        assert(str_views(out@) =~= preserved_names(str_views(names@).take(0)));
    }
    while i < names.len()
        invariant
            0 <= i <= names@.len(),
            str_views(out@) == preserved_names(str_views(names@).take(i as int)),
        decreases names@.len() - i,
    {
        let keep = !is_managed(names[i].as_str());
        if keep {
            out.push(names[i].clone());
        }
        i = i + 1;
        proof {
            reveal_with_fuel(Seq::filter, 1);
            let vs = str_views(names@);
            assert(vs.take(i as int).drop_last() =~= vs.take(i - 1));
            assert(vs.take(i as int).last() == vs[i - 1]);
            assert(vs[i - 1] == names@[i - 1]@);
            assert(str_views(out@) =~= preserved_names(vs.take(i as int)));
        }
    }
    proof {
        assert(str_views(names@).take(names@.len() as int) =~= str_views(names@));
    }
    out
}

/// An empty JSON object document.
fn empty_obj() -> (r: Json)
    ensures
        r@ == JsonV::Obj(Seq::empty()),
{
    let v: Vec<(String, Json)> = Vec::new();
    proof {
        lemma_obj_view(v);
        assert(field_views(v@) =~= Seq::<(Seq<char>, JsonV)>::empty());
    }
    Json::Obj(v)
}

/// Install the tool's hooks into the settings document.
///
/// The caller supplies the home directory, the Unix timestamp and
/// RFC 3339 rendering of the moment, the paths of the voice files it
/// installed, whether the helper application bundle was installed, and
/// the serialized default configuration to seed when none exists.
///
/// On success the store holds, beyond the caller's files: a backup of
/// the prior settings (when there were any), the merged settings
/// document, the sounds-enabled sentinel, the default configuration
/// (only where none existed), and the installation manifest; the
/// uninstalled marker is gone. The returned message names the foreign
/// hook types that were preserved. A settings file that does not parse
/// as a JSON object document is reported as a parse error, with only
/// the uninstalled marker removed.
#[verifier::loop_isolation(false)]
pub fn install_hooks(
    fs: &mut FileStore,
    home: &str,
    timestamp: u64,
    now_rfc3339: &str,
    voice_files: &Vec<String>,
    terminal_notifier_installed: bool,
    default_config_yaml: &str,
) -> (r: Result<String, LibError>)
    requires
        old(fs).wf(),
    ensures
        final(fs).wf(),
        r matches Ok(msg) ==> final(fs)@ == installed_map(
            old(fs)@,
            home@,
            timestamp as nat,
            now_rfc3339@,
            str_views(voice_files@),
            terminal_notifier_installed,
            default_config_yaml@,
        ) && msg@ == install_message_spec(
            hook_type_names(parsed_settings(old(fs)@, home@ + "/.assist/settings.json"@)->0),
        ),
        r is Ok <==> parsed_settings(old(fs)@, home@ + "/.assist/settings.json"@) is Some,
        r is Err ==> r == Err::<String, LibError>(LibError::ParseError) && final(fs)@ == old(
            fs,
        )@.remove(home@ + "/.assist/.uninstalled"@),
{
    let sp = settings_path(home);
    let cfg = get_config_path(home);
    let marker_path = uninstalled_marker_path(home);
    proof {
        reveal_strlit("/.assist/settings.json");
        reveal_strlit("/.assist/.uninstalled");
        assert(sp@.len() == home@.len() + 22);
        assert(marker_path@.len() == home@.len() + 21);
        assert(sp@ != marker_path@);
    }
    let config_exists = fs.has_file(cfg.as_str());
    let settings_content = fs.read(sp.as_str());
    fs.remove(marker_path.as_str());

    let doc: Json = match &settings_content {
        Some(text) => match parse_json(text.as_str()) {
            Some(d) => match &d {
                Json::Obj(_) => d,
                Json::Null => empty_obj(),
                _ => {
                    return Err(LibError::ParseError);
                },
            },
            None => {
                return Err(LibError::ParseError);
            },
        },
        None => empty_obj(),
    };
    let ghost doc_v = parsed_settings(old(fs)@, home@ + "/.assist/settings.json"@)->0;
    proof {
        assert(doc@ == doc_v);
    }

    let existing_names = check_existing_hooks(&doc);
    let had_existing = existing_names.len() > 0;

    let ours = build_our_hooks(home);
    let old_hooks: Json = match doc.get("hooks") {
        Some(h) => h.deep_clone(),
        None => empty_obj(),
    };
    let merged = merge_hooks(&old_hooks, &ours);
    let mut newdoc = doc;
    newdoc.set("hooks", merged);
    proof {
        assert(newdoc@ == installed_doc(doc_v, home@));
    }
    proof {
        lemma_our_hooks_printable(home@);
        match json_get(doc_v, "hooks"@) {
            Some(_) => {
                lemma_printable_lookup(doc_v, "hooks"@);
            },
            None => {},
        }
        lemma_printable_merge(
            match json_get(doc_v, "hooks"@) {
                Some(h) => h,
                None => JsonV::Obj(Seq::empty()),
            },
            our_hooks_spec(home@),
        );
        lemma_printable_set_fields(
            doc_v->Obj_0,
            "hooks"@,
            merge_hooks_spec(
                match json_get(doc_v, "hooks"@) {
                    Some(h) => h,
                    None => JsonV::Obj(Seq::empty()),
                },
                our_hooks_spec(home@),
            ),
        );
        assert(json_printable(newdoc@));
    }
    let settings_text = to_pretty_checked(&newdoc);

    let backup_name = match &settings_content {
        Some(_) => {
            let ts = u64_to_string(timestamp);
            let p = home.to_owned().concat(
                "/.assist/backups/settings-pre-audio-notifier-",
            ).concat(ts.as_str()).concat(".json");
            assert(p@ =~= backup_file_path(home@, timestamp as nat));
            p
        },
        None => String::new(),
    };

    let mut files_created: Vec<String> = Vec::new();
    files_created.push(home.to_owned().concat("/.assist/scripts/smart-notify.sh"));
    files_created.push(home.to_owned().concat("/.assist/scripts/select-sound.sh"));
    files_created.push(home.to_owned().concat("/.assist/scripts/read-config.sh"));
    files_created.push(home.to_owned().concat("/.assist/scripts/audio-notifier-uninstall.sh"));
    files_created.push(home.to_owned().concat("/.assist/.sounds-enabled"));
    let mut i: usize = 0;
    let ghost base_files = seq![
        home@ + "/.assist/scripts/smart-notify.sh"@,
        home@ + "/.assist/scripts/select-sound.sh"@,
        home@ + "/.assist/scripts/read-config.sh"@,
        home@ + "/.assist/scripts/audio-notifier-uninstall.sh"@,
        home@ + "/.assist/.sounds-enabled"@,
    ];
    proof {
        assert(str_views(files_created@) =~= base_files);
        assert(str_views(files_created@) =~= base_files + str_views(voice_files@).take(0));
    }
    while i < voice_files.len()
        invariant
            0 <= i <= voice_files@.len(),
            str_views(files_created@) == base_files + str_views(voice_files@).take(i as int),
        decreases voice_files@.len() - i,
    {
        files_created.push(voice_files[i].clone());
        i = i + 1;
        proof {
            let vv = str_views(voice_files@);
            assert(vv.take(i as int).drop_last() =~= vv.take(i - 1));
            assert(vv.take(i as int).last() == vv[i - 1]);
            assert(vv[i - 1] == voice_files@[i - 1]@);
            assert(base_files + vv.take(i as int) =~= (base_files + vv.take(i - 1)).push(
                vv[i - 1],
            ));
            assert(str_views(files_created@) =~= (base_files + vv.take(i - 1)).push(
                vv[i - 1],
            ));
        }
    }
    proof {
        assert(str_views(voice_files@).take(voice_files@.len() as int) =~= str_views(
            voice_files@,
        ));
    }
    let ghost after_voices = str_views(files_created@);
    if terminal_notifier_installed {
        files_created.push(home.to_owned().concat("/.assist/terminal-notifier.app"));
        proof {
            assert(str_views(files_created@) =~= after_voices.push(
                home@ + "/.assist/terminal-notifier.app"@,
            ));
        }
    }
    let ghost after_tn = str_views(files_created@);
    if !config_exists {
        files_created.push(home.to_owned().concat("/.assist/audio-notifier.yaml"));
        proof {
            assert(str_views(files_created@) =~= after_tn.push(
                home@ + "/.assist/audio-notifier.yaml"@,
            ));
        }
    }
    proof {
        assert(str_views(files_created@) =~= files_created_spec(
            home@,
            str_views(voice_files@),
            terminal_notifier_installed,
            !old(fs)@.contains_key(home@ + "/.assist/audio-notifier.yaml"@),
        ));
    }

    let mut hooks_added: Vec<String> = Vec::new();
    hooks_added.push("Notification".to_owned());
    hooks_added.push("Stop".to_owned());
    hooks_added.push("PreToolUse".to_owned());
    hooks_added.push("PostToolUse".to_owned());
    hooks_added.push("SubagentStop".to_owned());
    proof {
        assert(str_views(hooks_added@) =~= our_hook_names());
    }

    let preserved = preserved_list(&existing_names);

    let m = InstallationManifest {
        installed_at: now_rfc3339.to_owned(),
        backup_path: backup_name,
        app_version: "1.0.0".to_owned(),
        changes: InstallationChanges {
            files_created,
            hooks_added,
            existing_hooks_preserved: preserved,
        },
    };
    let ghost mdoc = manifest_doc_spec(
        now_rfc3339@,
        recorded_backup(old(fs)@, home@, timestamp as nat),
        files_created_spec(
            home@,
            str_views(voice_files@),
            terminal_notifier_installed,
            !old(fs)@.contains_key(home@ + "/.assist/audio-notifier.yaml"@),
        ),
        our_hook_names(),
        preserved_names(hook_type_names(doc_v)),
    );
    proof {
        assert(crate::manifest::strings_view(m.changes.files_created@) =~= seq_strs(
            str_views(m.changes.files_created@),
        ));
        assert(crate::manifest::strings_view(m.changes.hooks_added@) =~= seq_strs(
            str_views(m.changes.hooks_added@),
        ));
        assert(crate::manifest::strings_view(m.changes.existing_hooks_preserved@) =~= seq_strs(
            str_views(m.changes.existing_hooks_preserved@),
        ));
        assert(str_views(existing_names@) =~= hook_type_names(doc_v));
        assert(manifest_json(m) =~~= mdoc);
    }
    proof {
        crate::manifest::lemma_manifest_printable(m);
    }
    let manifest_text = to_pretty_checked(&crate::manifest::manifest_to_json(&m));

    let _ = create_backup(fs, home, sp.as_str(), timestamp);
    fs.write(sp.as_str(), settings_text);
    let sent = get_sounds_enabled_path(home);
    fs.write(sent.as_str(), String::new());
    if !config_exists {
        fs.write(cfg.as_str(), default_config_yaml.to_owned());
    }
    let mpath = get_manifest_path(home);
    fs.write(mpath.as_str(), manifest_text);

    let mut msg = "Installation complete! Audio notifications are now active.".to_owned();
    if had_existing {
        let preserved_again = preserved_list(&existing_names);
        msg.append("\n\nExisting hooks preserved: ");
        let joined = join_comma(&preserved_again);
        msg.append(joined.as_str());
    }
    proof {
        assert(msg@ == install_message_spec(hook_type_names(doc_v)));
        assert(fs@ =~= installed_map(
            old(fs)@,
            home@,
            timestamp as nat,
            now_rfc3339@,
            str_views(voice_files@),
            terminal_notifier_installed,
            default_config_yaml@,
        ));
    }
    Ok(msg)
}

} // verus!
