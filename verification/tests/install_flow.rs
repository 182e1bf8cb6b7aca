use audio_notifier::backup::create_backup;
use audio_notifier::install::install_hooks;
use audio_notifier::manifest::{
    delete_manifest, export_installation_log, get_backup_path, get_installation_info,
    write_manifest, InstallationChanges, InstallationManifest,
};
use audio_notifier::paths::{
    get_config_path, get_manifest_path, get_sounds_enabled_path, settings_path,
    uninstalled_marker_path,
};
use audio_notifier::sentinels::{get_sounds_enabled, set_sounds_enabled, was_uninstalled};
use audio_notifier::uninstall::{dev_reset_install, uninstall_hooks};
use audio_notifier::vfs::FileStore;
use audio_notifier::LibError;

const HOME: &str = "/home/u";
const NOW: &str = "2024-01-02T03:04:05+00:00";
const YAML: &str = "global_mode: true\n";

fn install(fs: &mut FileStore, ts: u64) -> String {
    install_hooks(fs, HOME, ts, NOW, &Vec::new(), false, YAML).expect("install succeeds")
}

#[test]
fn backup_is_a_no_op_without_settings() {
    let mut fs = FileStore::new();
    let path = create_backup(&mut fs, HOME, &settings_path(HOME), 42);
    assert_eq!(path, "");
    assert!(!fs.has_file("/home/u/.assist/backups/settings-pre-audio-notifier-42.json"));
}

#[test]
fn backup_copies_the_settings_file() {
    let mut fs = FileStore::new();
    fs.write(&settings_path(HOME), "{}".to_string());
    let path = create_backup(&mut fs, HOME, &settings_path(HOME), 42);
    assert_eq!(path, "/home/u/.assist/backups/settings-pre-audio-notifier-42.json");
    assert_eq!(fs.read(&path), Some("{}".to_string()));
}

#[test]
fn manifest_read_fails_without_prior_write() {
    let fs = FileStore::new();
    match get_installation_info(&fs, HOME) {
        Err(LibError::NotFoundError) => {},
        other => panic!("expected NotFoundError, got {:?}", other),
    }
}

#[test]
fn manifest_write_read_round_trip() {
    let mut fs = FileStore::new();
    let m = InstallationManifest {
        installed_at: NOW.to_string(),
        backup_path: "/b".to_string(),
        app_version: "1.0.0".to_string(),
        changes: InstallationChanges {
            files_created: vec!["/a".to_string()],
            hooks_added: vec!["Stop".to_string()],
            existing_hooks_preserved: vec!["PreCommit".to_string()],
        },
    };
    write_manifest(&mut fs, HOME, &m).expect("write succeeds");
    let back = get_installation_info(&fs, HOME).expect("read succeeds");
    assert_eq!(back.installed_at, NOW);
    assert_eq!(back.backup_path, "/b");
    assert_eq!(back.app_version, "1.0.0");
    assert_eq!(back.changes.files_created, vec!["/a".to_string()]);
    assert_eq!(back.changes.hooks_added, vec!["Stop".to_string()]);
    assert_eq!(back.changes.existing_hooks_preserved, vec!["PreCommit".to_string()]);
    assert_eq!(get_backup_path(&fs, HOME).unwrap(), "/b");
    let exported: serde_json::Value =
        serde_json::from_str(&export_installation_log(&fs, HOME).unwrap()).unwrap();
    assert_eq!(exported["backup_path"], "/b");
    assert_eq!(exported["changes"]["existing_hooks_preserved"][0], "PreCommit");
    delete_manifest(&mut fs, HOME);
    assert!(matches!(get_installation_info(&fs, HOME), Err(LibError::NotFoundError)));
    // Deleting again is not an error.
    delete_manifest(&mut fs, HOME);
}

#[test]
fn export_fails_as_read_does() {
    let fs = FileStore::new();
    assert!(matches!(export_installation_log(&fs, HOME), Err(LibError::NotFoundError)));
    assert!(matches!(get_backup_path(&fs, HOME), Err(LibError::NotFoundError)));
}

#[test]
fn dev_reset_ignores_an_unreadable_settings_file() {
    let mut fs = FileStore::new();
    fs.write(&settings_path(HOME), "not json".to_string());
    fs.write(&get_config_path(HOME), "x".to_string());
    dev_reset_install(&mut fs, HOME).expect("reset succeeds");
    // The unreadable settings file is left alone; the artifacts go.
    assert_eq!(fs.read(&settings_path(HOME)), Some("not json".to_string()));
    assert!(!fs.has_file(&get_config_path(HOME)));
}

#[test]
fn manifest_read_fails_on_garbage() {
    let mut fs = FileStore::new();
    fs.write(&get_manifest_path(HOME), "not json".to_string());
    assert!(matches!(get_installation_info(&fs, HOME), Err(LibError::ParseError)));
    fs.write(&get_manifest_path(HOME), "{\"installed_at\": 3}".to_string());
    assert!(matches!(get_installation_info(&fs, HOME), Err(LibError::ParseError)));
}

#[test]
fn install_into_empty_settings() {
    let mut fs = FileStore::new();
    let msg = install(&mut fs, 100);
    assert_eq!(msg, "Installation complete! Audio notifications are now active.");

    let settings: serde_json::Value =
        serde_json::from_str(&fs.read(&settings_path(HOME)).expect("settings written"))
            .expect("settings parse");
    let hooks = settings["hooks"].as_object().expect("hooks present");
    // serde_json orders object keys.
    let names: Vec<&str> = hooks.keys().map(String::as_str).collect();
    assert_eq!(
        names,
        vec!["Notification", "PostToolUse", "PreToolUse", "Stop", "SubagentStop"]
    );
    for (name, value) in hooks {
        assert_eq!(value.as_array().expect("array").len(), 1, "{}", name);
    }

    let m = get_installation_info(&fs, HOME).expect("manifest written");
    assert_eq!(m.changes.existing_hooks_preserved.len(), 0);
    assert_eq!(m.backup_path, "");
    assert_eq!(m.installed_at, NOW);
    assert_eq!(
        m.changes.hooks_added,
        vec!["Notification", "Stop", "PreToolUse", "PostToolUse", "SubagentStop"]
    );

    assert!(fs.has_file(&get_sounds_enabled_path(HOME)));
    assert_eq!(fs.read(&get_config_path(HOME)), Some(YAML.to_string()));
}

#[test]
fn install_preserves_existing_foreign_hook() {
    let mut fs = FileStore::new();
    let precommit = r#"{"hooks": {"PreCommit": [{"matcher":"","hooks":[{"type":"command","command":"lint.sh"}]}]}}"#;
    fs.write(&settings_path(HOME), precommit.to_string());
    let msg = install(&mut fs, 100);
    assert_eq!(
        msg,
        "Installation complete! Audio notifications are now active.\n\nExisting hooks preserved: PreCommit"
    );

    let settings: serde_json::Value =
        serde_json::from_str(&fs.read(&settings_path(HOME)).unwrap()).unwrap();
    let hooks = settings["hooks"].as_object().unwrap();
    let names: Vec<&str> = hooks.keys().map(String::as_str).collect();
    assert_eq!(
        names,
        vec![
            "Notification",
            "PostToolUse",
            "PreCommit",
            "PreToolUse",
            "Stop",
            "SubagentStop"
        ]
    );
    let kept = hooks["PreCommit"].as_array().unwrap();
    assert_eq!(kept.len(), 1);
    assert_eq!(kept[0]["hooks"][0]["command"], "lint.sh");

    let m = get_installation_info(&fs, HOME).unwrap();
    assert_eq!(m.changes.existing_hooks_preserved, vec!["PreCommit".to_string()]);
    // A backup of the prior settings exists at the recorded path.
    assert_eq!(
        m.backup_path,
        "/home/u/.assist/backups/settings-pre-audio-notifier-100.json"
    );
    assert_eq!(fs.read(&m.backup_path), Some(precommit.to_string()));
}

#[test]
fn reinstall_is_structurally_identical() {
    let mut fs = FileStore::new();
    fs.write(
        &settings_path(HOME),
        r#"{"hooks": {"PreCommit": [{"matcher":"","hooks":[{"type":"command","command":"lint.sh"}]}]}}"#
            .to_string(),
    );
    install(&mut fs, 100);
    let first = fs.read(&settings_path(HOME)).unwrap();
    install(&mut fs, 200);
    let second = fs.read(&settings_path(HOME)).unwrap();
    assert_eq!(first, second);
}

#[test]
fn uninstall_keeps_foreign_and_removes_own() {
    let mut fs = FileStore::new();
    fs.write(
        &settings_path(HOME),
        r#"{"hooks": {"PreCommit": [{"matcher":"","hooks":[{"type":"command","command":"lint.sh"}]}]}}"#
            .to_string(),
    );
    install(&mut fs, 100);
    let msg = uninstall_hooks(&mut fs, HOME, 300).expect("uninstall succeeds");
    assert!(msg.starts_with(
        "Uninstallation complete!\n\nBackup created at: /home/u/.assist/backups/settings-pre-audio-notifier-300.json"
    ));
    assert!(msg.ends_with("Your existing hooks were preserved: PreCommit"));

    let settings: serde_json::Value =
        serde_json::from_str(&fs.read(&settings_path(HOME)).unwrap()).unwrap();
    let hooks = settings["hooks"].as_object().unwrap();
    assert_eq!(hooks.len(), 1);
    assert_eq!(hooks["PreCommit"][0]["hooks"][0]["command"], "lint.sh");

    assert!(!fs.has_file(&get_sounds_enabled_path(HOME)));
    assert!(fs.has_file(&uninstalled_marker_path(HOME)));
    assert!(matches!(get_installation_info(&fs, HOME), Err(LibError::NotFoundError)));
}

#[test]
fn uninstall_requires_a_manifest() {
    let mut fs = FileStore::new();
    assert!(matches!(uninstall_hooks(&mut fs, HOME, 1), Err(LibError::NotFoundError)));
}

#[test]
fn uninstall_requires_the_settings_file() {
    let mut fs = FileStore::new();
    install(&mut fs, 100);
    // Drop the settings file between install and uninstall.
    fs.remove(&settings_path(HOME));
    assert!(matches!(uninstall_hooks(&mut fs, HOME, 1), Err(LibError::NotFoundError)));
}

#[test]
fn install_rejects_unparseable_settings() {
    let mut fs = FileStore::new();
    fs.write(&settings_path(HOME), "not json".to_string());
    let r = install_hooks(&mut fs, HOME, 1, NOW, &Vec::new(), false, YAML);
    assert!(matches!(r, Err(LibError::ParseError)));
    // A top-level array is not a settings document either.
    fs.write(&settings_path(HOME), "[1]".to_string());
    let r = install_hooks(&mut fs, HOME, 1, NOW, &Vec::new(), false, YAML);
    assert!(matches!(r, Err(LibError::ParseError)));
}

#[test]
fn install_clears_the_uninstalled_marker() {
    let mut fs = FileStore::new();
    fs.write(&uninstalled_marker_path(HOME), String::new());
    assert!(was_uninstalled(&fs, HOME));
    install(&mut fs, 100);
    assert!(!was_uninstalled(&fs, HOME));
}

#[test]
fn install_does_not_overwrite_existing_config() {
    let mut fs = FileStore::new();
    fs.write(&get_config_path(HOME), "user: config\n".to_string());
    install(&mut fs, 100);
    assert_eq!(fs.read(&get_config_path(HOME)), Some("user: config\n".to_string()));
}

#[test]
fn install_records_voice_and_helper_files() {
    let mut fs = FileStore::new();
    let voices = vec!["/home/u/.assist/voices/global/stop.mp3".to_string()];
    install_hooks(&mut fs, HOME, 1, NOW, &voices, true, YAML).unwrap();
    let m = get_installation_info(&fs, HOME).unwrap();
    assert!(m.changes.files_created.contains(&"/home/u/.assist/voices/global/stop.mp3".to_string()));
    assert!(m.changes.files_created.contains(&"/home/u/.assist/terminal-notifier.app".to_string()));
    assert!(m.changes.files_created.contains(&"/home/u/.assist/audio-notifier.yaml".to_string()));
}

#[test]
fn sounds_sentinel_toggles() {
    let mut fs = FileStore::new();
    assert!(!get_sounds_enabled(&fs, HOME));
    set_sounds_enabled(&mut fs, HOME, true);
    assert!(get_sounds_enabled(&fs, HOME));
    set_sounds_enabled(&mut fs, HOME, false);
    assert!(!get_sounds_enabled(&fs, HOME));
    // Disabling twice is fine.
    set_sounds_enabled(&mut fs, HOME, false);
    assert!(!get_sounds_enabled(&fs, HOME));
}

#[test]
fn dev_reset_removes_hooks_and_artifacts() {
    let mut fs = FileStore::new();
    fs.write(
        &settings_path(HOME),
        r#"{"hooks": {"Stop": []}, "model": "keep-me"}"#.to_string(),
    );
    install(&mut fs, 100);
    dev_reset_install(&mut fs, HOME).expect("reset succeeds");
    assert!(!fs.has_file(&get_sounds_enabled_path(HOME)));
    assert!(!fs.has_file(&get_config_path(HOME)));
    let settings: serde_json::Value =
        serde_json::from_str(&fs.read(&settings_path(HOME)).unwrap()).unwrap();
    assert!(settings.get("hooks").is_none());
    assert_eq!(settings["model"], "keep-me");
}
