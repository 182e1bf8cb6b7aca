//! The uninstaller: removes only this tool's hook groups from the
//! settings document, deletes the installed artifacts it tracks,
//! writes the uninstalled marker, and deletes the manifest. A backup
//! is taken before the settings document is touched.

use vstd::prelude::*;

use crate::backup::{backup_file_path, create_backup};
use crate::codec::{
    json_parse, json_pretty, json_printable, lemma_printable_lookup,
    lemma_printable_remove_fields, lemma_printable_set_fields, lemma_printable_strip,
    parse_json, to_pretty_checked,
};
use crate::hooks::{strip_own, strip_own_spec};
use crate::json::{json_get, remove_fields, set_fields, JsonV};
use crate::manifest::{
    delete_manifest, get_installation_info, manifest_wellformed, strings_view,
};
use crate::paths::{
    get_sounds_enabled_path, scripts_dir, settings_path, uninstalled_marker_path,
};
use crate::text::{join_comma, join_comma_spec, str_views};
use crate::vfs::FileStore;
use crate::LibError;

verus! {

/// The settings document after this tool's hook groups are stripped.
pub open spec fn uninstalled_doc(doc: JsonV) -> JsonV {
    match json_get(doc, "hooks"@) {
        Some(h) => JsonV::Obj(set_fields(doc->Obj_0, "hooks"@, strip_own_spec(h))),
        None => doc,
    }
}

/// The character sequences of a sequence of JSON string nodes.
pub open spec fn strs_of(xs: Seq<JsonV>) -> Seq<Seq<char>> {
    Seq::new(xs.len(), |i: int| xs[i]->Str_0)
}

/// The hook types a stored manifest records as preserved.
pub open spec fn manifest_preserved(mdoc: JsonV) -> Seq<Seq<char>> {
    match json_get(mdoc, "changes"@) {
        Some(c) => match json_get(c, "existing_hooks_preserved"@) {
            Some(JsonV::Arr(xs)) => strs_of(xs),
            _ => Seq::empty(),
        },
        None => Seq::empty(),
    }
}

/// The summary message of a successful uninstall.
pub open spec fn uninstall_message_spec(backup: Seq<char>, preserved: Seq<Seq<char>>) -> Seq<
    char,
> {
    let base = "Uninstallation complete!\n\nBackup created at: "@ + backup
        + "\nConfig preserved at: ~/.assist/audio-notifier.yaml"@;
    if preserved.len() > 0 {
        base + "\n\nYour existing hooks were preserved: "@ + join_comma_spec(preserved)
    } else {
        base
    }
}

/// The file store after a successful uninstall.
pub open spec fn uninstalled_map(
    m0: Map<Seq<char>, Seq<char>>,
    home: Seq<char>,
    ts: nat,
) -> Map<Seq<char>, Seq<char>> {
    let sp = home + "/.assist/settings.json"@;
    let doc = json_parse(m0[sp])->0;
    let u1 = m0.insert(backup_file_path(home, ts), m0[sp]);
    let u2 = u1.insert(sp, json_pretty(uninstalled_doc(doc)));
    let u3 = u2.remove(home + "/.assist/scripts/smart-notify.sh"@).remove(
        home + "/.assist/scripts/select-sound.sh"@,
    ).remove(home + "/.assist/scripts/read-config.sh"@);
    let u4 = u3.remove(home + "/.assist/.sounds-enabled"@);
    let u5 = u4.insert(home + "/.assist/.uninstalled"@, Seq::empty());
    u5.remove(home + "/.assist/audio-notifier-install.json"@)
}

/// Whether the stored manifest is present and readable.
pub open spec fn manifest_readable(m0: Map<Seq<char>, Seq<char>>, home: Seq<char>) -> bool {
    &&& m0.contains_key(home + "/.assist/audio-notifier-install.json"@)
    &&& match json_parse(m0[home + "/.assist/audio-notifier-install.json"@]) {
        Some(doc) => manifest_wellformed(doc),
        None => false,
    }
}

/// Uninstall the tool's hooks from the settings document.
///
/// Requires a prior install record: without a manifest nothing is
/// touched and `NotFoundError` is reported. The settings document must
/// exist and parse; a backup of it is taken first. On success the
/// store holds the backup, the stripped settings document and the
/// uninstalled marker; the tool's scripts, the sounds sentinel and the
/// manifest are gone. The message names the backup and the hook types
/// the manifest recorded as preserved.
pub fn uninstall_hooks(fs: &mut FileStore, home: &str, timestamp: u64) -> (r: Result<
    String,
    LibError,
>)
    requires
        old(fs).wf(),
    ensures
        final(fs).wf(),
        !old(fs)@.contains_key(home@ + "/.assist/audio-notifier-install.json"@) ==> r == Err::<
            String,
            LibError,
        >(LibError::NotFoundError) && final(fs)@ == old(fs)@,
        old(fs)@.contains_key(home@ + "/.assist/audio-notifier-install.json"@)
            && !manifest_readable(old(fs)@, home@) ==> r == Err::<String, LibError>(
            LibError::ParseError,
        ) && final(fs)@ == old(fs)@,
        manifest_readable(old(fs)@, home@) && !old(fs)@.contains_key(
            home@ + "/.assist/settings.json"@,
        ) ==> r == Err::<String, LibError>(LibError::NotFoundError) && final(fs)@ == old(fs)@,
        manifest_readable(old(fs)@, home@) && old(fs)@.contains_key(
            home@ + "/.assist/settings.json"@,
        ) && json_parse(old(fs)@[home@ + "/.assist/settings.json"@]) is None ==> r == Err::<
            String,
            LibError,
        >(LibError::ParseError) && final(fs)@ == old(fs)@.insert(
            backup_file_path(home@, timestamp as nat),
            old(fs)@[home@ + "/.assist/settings.json"@],
        ),
        r matches Ok(msg) ==> manifest_readable(old(fs)@, home@) && old(fs)@.contains_key(
            home@ + "/.assist/settings.json"@,
        ) && json_parse(old(fs)@[home@ + "/.assist/settings.json"@]) is Some && final(fs)@
            == uninstalled_map(old(fs)@, home@, timestamp as nat) && msg@
            == uninstall_message_spec(
            backup_file_path(home@, timestamp as nat),
            manifest_preserved(
                json_parse(old(fs)@[home@ + "/.assist/audio-notifier-install.json"@])->0,
            ),
        ),
        manifest_readable(old(fs)@, home@) && old(fs)@.contains_key(
            home@ + "/.assist/settings.json"@,
        ) && json_parse(old(fs)@[home@ + "/.assist/settings.json"@]) is Some ==> r is Ok,
{
    let m = match get_installation_info(fs, home) {
        Ok(m) => m,
        Err(e) => {
            return Err(e);
        },
    };
    let sp = settings_path(home);
    let backup_name = create_backup(fs, home, sp.as_str(), timestamp);
    let content = match fs.read(sp.as_str()) {
        Some(c) => c,
        None => {
            return Err(LibError::NotFoundError);
        },
    };
    let mut doc = match parse_json(content.as_str()) {
        Some(d) => d,
        None => {
            return Err(LibError::ParseError);
        },
    };
    let ghost doc_v = doc@;
    match doc.get("hooks") {
        Some(h) => {
            let stripped = strip_own(h);
            doc.set("hooks", stripped);
        },
        None => {},
    }
    proof {
        assert(doc@ == uninstalled_doc(doc_v));
        match json_get(doc_v, "hooks"@) {
            Some(h) => {
                lemma_printable_lookup(doc_v, "hooks"@);
                lemma_printable_strip(h);
                lemma_printable_set_fields(doc_v->Obj_0, "hooks"@, strip_own_spec(h));
                assert(json_printable(doc@));
            },
            None => {},
        }
    }
    let text = to_pretty_checked(&doc);
    fs.write(sp.as_str(), text);
    let sdir = scripts_dir(home);
    let s1 = sdir.as_str().to_owned().concat("/smart-notify.sh");
    let s2 = sdir.as_str().to_owned().concat("/select-sound.sh");
    let s3 = sdir.as_str().to_owned().concat("/read-config.sh");
    proof {
        reveal_strlit("/.assist/scripts");
        reveal_strlit("/smart-notify.sh");
        reveal_strlit("/select-sound.sh");
        reveal_strlit("/read-config.sh");
        reveal_strlit("/.assist/scripts/smart-notify.sh");
        reveal_strlit("/.assist/scripts/select-sound.sh");
        reveal_strlit("/.assist/scripts/read-config.sh");
        assert(s1@ =~= home@ + "/.assist/scripts/smart-notify.sh"@);
        assert(s2@ =~= home@ + "/.assist/scripts/select-sound.sh"@);
        assert(s3@ =~= home@ + "/.assist/scripts/read-config.sh"@);
    }
    fs.remove(s1.as_str());
    fs.remove(s2.as_str());
    fs.remove(s3.as_str());
    let sent = get_sounds_enabled_path(home);
    fs.remove(sent.as_str());
    let marker = uninstalled_marker_path(home);
    fs.write(marker.as_str(), String::new());
    delete_manifest(fs, home);

    let mut msg = "Uninstallation complete!\n\nBackup created at: ".to_owned();
    msg.append(backup_name.as_str());
    msg.append("\nConfig preserved at: ~/.assist/audio-notifier.yaml");
    if m.changes.existing_hooks_preserved.len() > 0 {
        msg.append("\n\nYour existing hooks were preserved: ");
        let joined = join_comma(&m.changes.existing_hooks_preserved);
        msg.append(joined.as_str());
    }
    proof {
        let mdoc = json_parse(old(fs)@[home@ + "/.assist/audio-notifier-install.json"@])->0;
        assert(strs_of(strings_view(m.changes.existing_hooks_preserved@)) =~= str_views(
            m.changes.existing_hooks_preserved@,
        ));
        assert(manifest_preserved(mdoc) == str_views(m.changes.existing_hooks_preserved@));
        assert(msg@ == uninstall_message_spec(
            backup_file_path(home@, timestamp as nat),
            manifest_preserved(mdoc),
        ));
        assert(fs@ =~= uninstalled_map(old(fs)@, home@, timestamp as nat));
    }
    Ok(msg)
}

/// Reset every installed artifact for development: the sentinel, the
/// configuration file, the scripts, and the whole `hooks` key of the
/// settings document. A settings file that does not parse is left
/// alone.
pub fn dev_reset_install(fs: &mut FileStore, home: &str) -> (r: Result<(), LibError>)
    requires
        old(fs).wf(),
    ensures
        final(fs).wf(),
        ({
            let d1 = old(fs)@.remove(home@ + "/.assist/.sounds-enabled"@).remove(
                home@ + "/.assist/audio-notifier.yaml"@,
            ).remove(home@ + "/.assist/scripts/smart-notify.sh"@).remove(
                home@ + "/.assist/scripts/select-sound.sh"@,
            ).remove(home@ + "/.assist/scripts/read-config.sh"@);
            let sp = home@ + "/.assist/settings.json"@;
            r is Ok && final(fs)@ == (if old(fs)@.contains_key(sp) {
                match json_parse(old(fs)@[sp]) {
                    Some(doc) => if json_get(doc, "hooks"@) is Some {
                        d1.insert(
                            sp,
                            json_pretty(JsonV::Obj(remove_fields(doc->Obj_0, "hooks"@))),
                        )
                    } else {
                        d1
                    },
                    None => d1,
                }
            } else {
                d1
            })
        }),
{
    let sent = get_sounds_enabled_path(home);
    fs.remove(sent.as_str());
    let cfg = crate::paths::get_config_path(home);
    fs.remove(cfg.as_str());
    let sdir = scripts_dir(home);
    let s1 = sdir.as_str().to_owned().concat("/smart-notify.sh");
    let s2 = sdir.as_str().to_owned().concat("/select-sound.sh");
    let s3 = sdir.as_str().to_owned().concat("/read-config.sh");
    proof {
        reveal_strlit("/.assist/scripts");
        reveal_strlit("/smart-notify.sh");
        reveal_strlit("/select-sound.sh");
        reveal_strlit("/read-config.sh");
        reveal_strlit("/.assist/scripts/smart-notify.sh");
        reveal_strlit("/.assist/scripts/select-sound.sh");
        reveal_strlit("/.assist/scripts/read-config.sh");
        assert(s1@ =~= home@ + "/.assist/scripts/smart-notify.sh"@);
        assert(s2@ =~= home@ + "/.assist/scripts/select-sound.sh"@);
        assert(s3@ =~= home@ + "/.assist/scripts/read-config.sh"@);
    }
    fs.remove(s1.as_str());
    fs.remove(s2.as_str());
    fs.remove(s3.as_str());

    let sp = settings_path(home);
    proof {
        reveal_strlit("/.assist/settings.json");
        reveal_strlit("/.assist/.sounds-enabled");
        reveal_strlit("/.assist/audio-notifier.yaml");
        reveal_strlit("/.assist/scripts/smart-notify.sh");
        reveal_strlit("/.assist/scripts/select-sound.sh");
        reveal_strlit("/.assist/scripts/read-config.sh");
        assert(sp@.len() == home@.len() + 22);
        assert((home@ + "/.assist/.sounds-enabled"@).len() == home@.len() + 24);
        assert((home@ + "/.assist/audio-notifier.yaml"@).len() == home@.len() + 28);
        assert((home@ + "/.assist/scripts/smart-notify.sh"@).len() == home@.len() + 32);
        assert((home@ + "/.assist/scripts/select-sound.sh"@).len() == home@.len() + 32);
        assert((home@ + "/.assist/scripts/read-config.sh"@).len() == home@.len() + 31);
        assert((home@ + "/.assist/scripts/smart-notify.sh"@)[home@.len() as int + 18] == 'm');
        assert((home@ + "/.assist/scripts/select-sound.sh"@)[home@.len() as int + 18] == 'e');
    }
    match fs.read(sp.as_str()) {
        Some(content) => match parse_json(content.as_str()) {
            Some(mut doc) => {
                let has_hooks = match doc.get("hooks") {
                    Some(_) => true,
                    None => false,
                };
                if has_hooks {
                    let ghost doc_v = doc@;
                    doc.remove_key("hooks");
                    proof {
                        assert(doc@ == JsonV::Obj(remove_fields(doc_v->Obj_0, "hooks"@)));
                        lemma_printable_remove_fields(doc_v->Obj_0, "hooks"@);
                        assert(json_printable(doc@));
                    }
                    let text = to_pretty_checked(&doc);
                    fs.write(sp.as_str(), text);
                    Ok(())
                } else {
                    Ok(())
                }
            },
            None => Ok(()),
        },
        None => Ok(()),
    }
}

} // verus!
