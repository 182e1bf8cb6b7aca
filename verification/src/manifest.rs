//! The manifest store: the durable record of what an install created,
//! read back by diagnostics and by uninstall.

use vstd::prelude::*;

use crate::codec::{
    json_parse, json_pretty, json_printable, lemma_printable_str_arr, parse_json,
    to_pretty_checked,
};
use crate::json::{json_get, lemma_arr_view, lemma_obj_view, Json, JsonV};
use crate::paths::get_manifest_path;
use crate::vfs::FileStore;
use crate::LibError;

verus! {

/// What an install changed on disk and in the settings document.
#[derive(Debug, Clone)]
pub struct InstallationChanges {
    pub files_created: Vec<String>,
    pub hooks_added: Vec<String>,
    pub existing_hooks_preserved: Vec<String>,
}

/// The record of one install.
#[derive(Debug, Clone)]
pub struct InstallationManifest {
    pub installed_at: String,
    pub backup_path: String,
    pub app_version: String,
    pub changes: InstallationChanges,
}

/// The views of a list of strings.
pub open spec fn strings_view(v: Seq<String>) -> Seq<JsonV> {
    Seq::new(v.len(), |i: int| JsonV::Str(v[i]@))
}

/// The JSON document a manifest is stored as.
pub open spec fn manifest_json(m: InstallationManifest) -> JsonV {
    JsonV::Obj(
        seq![
            ("installed_at"@, JsonV::Str(m.installed_at@)),
            ("backup_path"@, JsonV::Str(m.backup_path@)),
            ("app_version"@, JsonV::Str(m.app_version@)),
            (
                "changes"@,
                JsonV::Obj(
                    seq![
                        ("files_created"@, JsonV::Arr(strings_view(m.changes.files_created@))),
                        ("hooks_added"@, JsonV::Arr(strings_view(m.changes.hooks_added@))),
                        (
                            "existing_hooks_preserved"@,
                            JsonV::Arr(strings_view(m.changes.existing_hooks_preserved@)),
                        ),
                    ],
                ),
            ),
        ],
    )
}

/// A JSON array of the given strings.
#[verifier::loop_isolation(false)]
fn strings_to_json(v: &Vec<String>) -> (r: Json)
    ensures
        r@ == JsonV::Arr(strings_view(v@)),
{
    let mut out: Vec<Json> = Vec::new();
    let mut i: usize = 0;
    while i < v.len()
        invariant
            0 <= i <= v@.len(),
            out@.len() == i,
            forall|k: int| 0 <= k < i ==> out@[k]@ == JsonV::Str(v@[k]@),
        decreases v@.len() - i,
    {
        out.push(Json::Str(v[i].clone()));
        i = i + 1;
    }
    proof {
        lemma_arr_view(out);
        assert(crate::json::views_of(out@) =~= strings_view(v@));
    }
    Json::Arr(out)
}

/// The manifest as a JSON document.
pub fn manifest_to_json(m: &InstallationManifest) -> (r: Json)
    ensures
        r@ == manifest_json(*m),
{
    let mut changes: Vec<(String, Json)> = Vec::new();
    changes.push(("files_created".to_owned(), strings_to_json(&m.changes.files_created)));
    changes.push(("hooks_added".to_owned(), strings_to_json(&m.changes.hooks_added)));
    changes.push(
        ("existing_hooks_preserved".to_owned(), strings_to_json(&m.changes.existing_hooks_preserved)),
    );
    proof {
        lemma_obj_view(changes);
        assert(crate::json::field_views(changes@) =~= manifest_json(*m)->Obj_0[3].1->Obj_0);
    }
    let changes_json = Json::Obj(changes);
    let mut fields: Vec<(String, Json)> = Vec::new();
    fields.push(("installed_at".to_owned(), Json::Str(m.installed_at.clone())));
    fields.push(("backup_path".to_owned(), Json::Str(m.backup_path.clone())));
    fields.push(("app_version".to_owned(), Json::Str(m.app_version.clone())));
    fields.push(("changes".to_owned(), changes_json));
    proof {
        lemma_obj_view(fields);
        assert(crate::json::field_views(fields@) =~= manifest_json(*m)->Obj_0);
    }
    Json::Obj(fields)
}

/// A manifest `m` carries the same data as the document `j`.
pub open spec fn manifest_matches(j: JsonV, m: InstallationManifest) -> bool {
    &&& json_get(j, "installed_at"@) == Some(JsonV::Str(m.installed_at@))
    &&& json_get(j, "backup_path"@) == Some(JsonV::Str(m.backup_path@))
    &&& json_get(j, "app_version"@) == Some(JsonV::Str(m.app_version@))
    &&& match json_get(j, "changes"@) {
        Some(c) => {
            &&& json_get(c, "files_created"@) == Some(
                JsonV::Arr(strings_view(m.changes.files_created@)),
            )
            &&& json_get(c, "hooks_added"@) == Some(
                JsonV::Arr(strings_view(m.changes.hooks_added@)),
            )
            &&& json_get(c, "existing_hooks_preserved"@) == Some(
                JsonV::Arr(strings_view(m.changes.existing_hooks_preserved@)),
            )
        },
        None => false,
    }
}

/// The document has the shape a stored manifest must have.
pub open spec fn manifest_wellformed(j: JsonV) -> bool {
    &&& json_get(j, "installed_at"@) matches Some(JsonV::Str(_))
    &&& json_get(j, "backup_path"@) matches Some(JsonV::Str(_))
    &&& json_get(j, "app_version"@) matches Some(JsonV::Str(_))
    &&& match json_get(j, "changes"@) {
        Some(c) => {
            &&& string_array_wf(json_get(c, "files_created"@))
            &&& string_array_wf(json_get(c, "hooks_added"@))
            &&& string_array_wf(json_get(c, "existing_hooks_preserved"@))
        },
        None => false,
    }
}

/// The looked-up value is an array of strings.
pub open spec fn string_array_wf(v: Option<JsonV>) -> bool {
    match v {
        Some(JsonV::Arr(xs)) => forall|i: int| 0 <= i < xs.len() ==> (#[trigger] xs[i]) is Str,
        _ => false,
    }
}

/// The strings of a JSON array of strings.
#[verifier::loop_isolation(false)]
fn json_to_strings(j: &Json) -> (r: Option<Vec<String>>)
    ensures
        match r {
            Some(v) => j@ is Arr && strings_view(v@) == j@->Arr_0,
            None => !(j@ is Arr) || exists|i: int|
                0 <= i < j@->Arr_0.len() && !((#[trigger] j@->Arr_0[i]) is Str),
        },
{
    match j {
        Json::Arr(items) => {
            proof {
                lemma_arr_view(*items);
            }
            let mut out: Vec<String> = Vec::new();
            let mut i: usize = 0;
            while i < items.len()
                invariant
                    0 <= i <= items@.len(),
                    out@.len() == i,
                    forall|k: int| 0 <= k < i ==> items@[k]@ is Str && JsonV::Str(out@[k]@)
                        == items@[k]@,
                decreases items@.len() - i,
            {
                match &items[i] {
                    Json::Str(s) => {
                        out.push(s.clone());
                    },
                    _ => {
                        proof {
                            assert(!(j@->Arr_0[i as int] is Str));
                        }
                        return None;
                    },
                }
                i = i + 1;
            }
            proof {
                assert(strings_view(out@) =~= j@->Arr_0);
            }
            Some(out)
        },
        _ => None,
    }
}

/// Read a manifest's fields out of its document.
fn json_to_manifest(j: &Json) -> (r: Option<InstallationManifest>)
    ensures
        match r {
            Some(m) => manifest_matches(j@, m),
            None => !manifest_wellformed(j@),
        },
{
    let installed_at = match j.get("installed_at") {
        Some(v) => match v {
            Json::Str(s) => s.clone(),
            _ => {
                return None;
            },
        },
        None => {
            return None;
        },
    };
    let backup_path = match j.get("backup_path") {
        Some(v) => match v {
            Json::Str(s) => s.clone(),
            _ => {
                return None;
            },
        },
        None => {
            return None;
        },
    };
    let app_version = match j.get("app_version") {
        Some(v) => match v {
            Json::Str(s) => s.clone(),
            _ => {
                return None;
            },
        },
        None => {
            return None;
        },
    };
    let changes = match j.get("changes") {
        Some(c) => c,
        None => {
            return None;
        },
    };
    let files_created = match changes.get("files_created") {
        Some(v) => match json_to_strings(v) {
            Some(xs) => xs,
            None => {
                return None;
            },
        },
        None => {
            return None;
        },
    };
    let hooks_added = match changes.get("hooks_added") {
        Some(v) => match json_to_strings(v) {
            Some(xs) => xs,
            None => {
                return None;
            },
        },
        None => {
            return None;
        },
    };
    let existing_hooks_preserved = match changes.get("existing_hooks_preserved") {
        Some(v) => match json_to_strings(v) {
            Some(xs) => xs,
            None => {
                return None;
            },
        },
        None => {
            return None;
        },
    };
    Some(
        InstallationManifest {
            installed_at,
            backup_path,
            app_version,
            changes: InstallationChanges { files_created, hooks_added, existing_hooks_preserved },
        },
    )
}

/// A manifest document holds only strings: always serializable.
pub proof fn lemma_manifest_printable(m: InstallationManifest)
    ensures
        json_printable(manifest_json(m)),
{
    let doc = manifest_json(m);
    lemma_printable_str_arr(strings_view(m.changes.files_created@));
    lemma_printable_str_arr(strings_view(m.changes.hooks_added@));
    lemma_printable_str_arr(strings_view(m.changes.existing_hooks_preserved@));
    let changes = doc->Obj_0[3].1;
    assert(forall|i: int|
        0 <= i < changes->Obj_0.len() ==> json_printable((#[trigger] changes->Obj_0[i]).1));
    assert(forall|i: int|
        0 <= i < doc->Obj_0.len() ==> json_printable((#[trigger] doc->Obj_0[i]).1));
}

/// Serialize and persist the manifest, overwriting any prior one.
pub fn write_manifest(fs: &mut FileStore, home: &str, m: &InstallationManifest) -> (r: Result<
    (),
    LibError,
>)
    requires
        old(fs).wf(),
    ensures
        final(fs).wf(),
        r is Ok,
        final(fs)@ == old(fs)@.insert(
            home@ + "/.assist/audio-notifier-install.json"@,
            json_pretty(manifest_json(*m)),
        ),
{
    let doc = manifest_to_json(m);
    proof {
        lemma_manifest_printable(*m);
    }
    let text = to_pretty_checked(&doc);
    let path = get_manifest_path(home);
    fs.write(path.as_str(), text);
    Ok(())
}

/// Read the manifest back. Fails with `NotFoundError` when no manifest
/// was ever written ("the application may not be installed"), and with
/// `ParseError` when the stored text is not a well-formed manifest.
pub fn get_installation_info(fs: &FileStore, home: &str) -> (r: Result<
    InstallationManifest,
    LibError,
>)
    requires
        fs.wf(),
    ensures
        !fs@.contains_key(home@ + "/.assist/audio-notifier-install.json"@) <==> r == Err::<
            InstallationManifest,
            LibError,
        >(LibError::NotFoundError),
        fs@.contains_key(home@ + "/.assist/audio-notifier-install.json"@) ==> match json_parse(
            fs@[home@ + "/.assist/audio-notifier-install.json"@],
        ) {
            Some(doc) => if manifest_wellformed(doc) {
                r matches Ok(m) && manifest_matches(doc, m)
            } else {
                r == Err::<InstallationManifest, LibError>(LibError::ParseError)
            },
            None => r == Err::<InstallationManifest, LibError>(LibError::ParseError),
        },
{
    let path = get_manifest_path(home);
    match fs.read(path.as_str()) {
        Some(text) => match parse_json(text.as_str()) {
            Some(doc) => match json_to_manifest(&doc) {
                Some(m) => Ok(m),
                None => Err(LibError::ParseError),
            },
            None => Err(LibError::ParseError),
        },
        None => Err(LibError::NotFoundError),
    }
}

/// The manifest document as the export rebuilds it from a stored,
/// well-formed document: the recognised fields in canonical order.
pub open spec fn restored_manifest_doc(doc: JsonV) -> JsonV {
    JsonV::Obj(
        seq![
            ("installed_at"@, json_get(doc, "installed_at"@)->0),
            ("backup_path"@, json_get(doc, "backup_path"@)->0),
            ("app_version"@, json_get(doc, "app_version"@)->0),
            (
                "changes"@,
                JsonV::Obj(
                    seq![
                        (
                            "files_created"@,
                            json_get(json_get(doc, "changes"@)->0, "files_created"@)->0,
                        ),
                        (
                            "hooks_added"@,
                            json_get(json_get(doc, "changes"@)->0, "hooks_added"@)->0,
                        ),
                        (
                            "existing_hooks_preserved"@,
                            json_get(
                                json_get(doc, "changes"@)->0,
                                "existing_hooks_preserved"@,
                            )->0,
                        ),
                    ],
                ),
            ),
        ],
    )
}

/// The stored manifest re-serialized for export: fails exactly as
/// `get_installation_info` does, and otherwise yields the recognised
/// fields printed back.
pub fn export_installation_log(fs: &FileStore, home: &str) -> (r: Result<String, LibError>)
    requires
        fs.wf(),
    ensures
        !fs@.contains_key(home@ + "/.assist/audio-notifier-install.json"@) <==> r == Err::<
            String,
            LibError,
        >(LibError::NotFoundError),
        fs@.contains_key(home@ + "/.assist/audio-notifier-install.json"@) ==> match json_parse(
            fs@[home@ + "/.assist/audio-notifier-install.json"@],
        ) {
            Some(doc) => if manifest_wellformed(doc) {
                r matches Ok(s) && s@ == json_pretty(restored_manifest_doc(doc))
            } else {
                r == Err::<String, LibError>(LibError::ParseError)
            },
            None => r == Err::<String, LibError>(LibError::ParseError),
        },
{
    let ghost mpath = home@ + "/.assist/audio-notifier-install.json"@;
    match get_installation_info(fs, home) {
        Ok(m) => {
            let doc = manifest_to_json(&m);
            proof {
                let stored = json_parse(fs@[mpath])->0;
                assert(manifest_json(m) =~~= restored_manifest_doc(stored));
                lemma_manifest_printable(m);
            }
            Ok(to_pretty_checked(&doc))
        },
        Err(e) => Err(e),
    }
}

/// The backup path the manifest records: fails exactly as
/// `get_installation_info` does.
pub fn get_backup_path(fs: &FileStore, home: &str) -> (r: Result<String, LibError>)
    requires
        fs.wf(),
    ensures
        !fs@.contains_key(home@ + "/.assist/audio-notifier-install.json"@) <==> r == Err::<
            String,
            LibError,
        >(LibError::NotFoundError),
        fs@.contains_key(home@ + "/.assist/audio-notifier-install.json"@) ==> match json_parse(
            fs@[home@ + "/.assist/audio-notifier-install.json"@],
        ) {
            Some(doc) => if manifest_wellformed(doc) {
                r matches Ok(p) && json_get(doc, "backup_path"@) == Some(JsonV::Str(p@))
            } else {
                r == Err::<String, LibError>(LibError::ParseError)
            },
            None => r == Err::<String, LibError>(LibError::ParseError),
        },
{
    match get_installation_info(fs, home) {
        Ok(m) => Ok(m.backup_path),
        Err(e) => Err(e),
    }
}

/// Delete the manifest; deleting an absent manifest is not an error.
pub fn delete_manifest(fs: &mut FileStore, home: &str)
    requires
        old(fs).wf(),
    ensures
        final(fs).wf(),
        final(fs)@ == old(fs)@.remove(home@ + "/.assist/audio-notifier-install.json"@),
{
    let path = get_manifest_path(home);
    fs.remove(path.as_str());
}

} // verus!
