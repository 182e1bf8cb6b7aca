use audio_notifier::config::{
    default_event_enabled, default_event_voice_enabled, default_voice_provider,
    default_voice_template, resolve_loaded_config, Config,
};
use audio_notifier::logs::{
    export_diagnostics, get_activity_log, get_recent_projects, list_custom_sounds, log_tail,
    sanitize_config, split_lines, trim, upload_sound_dest,
};
use audio_notifier::text::{contains_sub, join_comma, replace_sub, str_eq, u64_to_string};
use audio_notifier::voice::{
    basic_voice_texts, bundled_voice_filename, fish_tts_request_body, generate_voice_plan,
    pregenerate_plan, preview_voice_plan, system_tts_temp_name, voice_preview_cache_rel,
    PreviewSource,
};
use audio_notifier::LibError;

#[test]
fn config_defaults() {
    let c = Config::default();
    assert!(c.global_mode);
    assert!(c.global_settings.enabled);
    assert_eq!(c.global_settings.event_sounds.notification, "voice:simple");
    assert_eq!(c.global_settings.voice_template, "{event} event");
    assert_eq!(c.global_settings.voice_provider, "fish_audio");
    assert!(c.global_settings.voice_id.is_none());
    assert!(c.global_settings.fish_audio_api_key.is_none());
    assert!(!c.global_settings.respect_do_not_disturb);
    assert_eq!(c.projects.len(), 0);
    assert_eq!(c.sound_library.len(), 12);
    assert_eq!(c.sound_library[0], "/System/Library/Sounds/Ping.aiff");
    assert_eq!(c.min_interval, 2);
    assert!(!c.debug);

    let e = default_event_enabled();
    assert!(e.notification && e.stop && e.subagent_stop);
    assert!(!e.pre_tool_use && !e.post_tool_use);
    let v = default_event_voice_enabled();
    assert!(v.notification && v.stop && v.subagent_stop);
    assert!(!v.pre_tool_use && !v.post_tool_use);
    assert_eq!(default_voice_template(), "{event} event");
    assert_eq!(default_voice_provider(), "system");
}

#[test]
fn unparseable_config_falls_back_to_default_and_persists() {
    // A file was on disk but did not parse: the default is used and
    // written back (auto-migration).
    let (c, persist) = resolve_loaded_config(true, None);
    assert!(persist);
    assert_eq!(c.sound_library.len(), 12);
    // A missing file also yields the default, but nothing is written.
    let (_, persist) = resolve_loaded_config(false, None);
    assert!(!persist);
    // A parsed configuration is passed through untouched.
    let mut custom = Config::default();
    custom.min_interval = 9;
    let (c, persist) = resolve_loaded_config(true, Some(custom));
    assert!(!persist);
    assert_eq!(c.min_interval, 9);
}

#[test]
fn voice_plan_for_default_config() {
    // The default provider string is "fish_audio", which is not the
    // remote provider's key "fish-audio": the system synthesizer is
    // used and no API key is needed.
    let c = Config::default();
    let jobs = generate_voice_plan(&c, false).expect("plan succeeds");
    let got: Vec<(&str, &str)> = jobs.iter().map(|j| (j.relative_path.as_str(), j.text.as_str())).collect();
    assert_eq!(
        got,
        vec![
            ("global/notification.mp3", "notification event"),
            ("global/stop.mp3", "stop event"),
            ("global/subagent_stop.mp3", "subagent stop event"),
        ]
    );
}

#[test]
fn voice_plan_requires_key_for_remote_provider() {
    let mut c = Config::default();
    c.global_settings.voice_provider = "fish-audio".to_string();
    assert!(matches!(generate_voice_plan(&c, false), Err(LibError::ConfigurationError)));
    assert!(generate_voice_plan(&c, true).is_ok());
    // With nothing to synthesize there is nothing to fail on.
    c.global_mode = false;
    assert!(generate_voice_plan(&c, false).unwrap().is_empty());
}

#[test]
fn preview_plan_prefers_bundled_then_global_then_cache() {
    let t = "notification event";
    assert_eq!(preview_voice_plan(t, true, true, true, true), PreviewSource::Bundled);
    assert_eq!(preview_voice_plan(t, false, true, true, true), PreviewSource::InstalledGlobal);
    assert_eq!(preview_voice_plan(t, false, false, true, true), PreviewSource::Cached);
    assert_eq!(preview_voice_plan(t, false, false, false, true), PreviewSource::GenerateFish);
    assert_eq!(preview_voice_plan(t, false, false, false, false), PreviewSource::GenerateSystem);
    // A custom text has no bundled file: the flags for bundled and
    // global sources are ignored.
    assert_eq!(preview_voice_plan("custom", true, true, false, false), PreviewSource::GenerateSystem);
    assert_eq!(bundled_voice_filename("stop event"), Some("stop.mp3".to_string()));
    assert_eq!(bundled_voice_filename("custom"), None);
}

#[test]
fn cache_names_use_the_text_digest() {
    assert_eq!(
        voice_preview_cache_rel("notification event"),
        "previews/d7d64c0e82e2ddc337dc3a8d11265f7eabb5295825b113eb98009267dfa0a457.mp3"
    );
    assert_eq!(
        system_tts_temp_name("hello"),
        "tts_2cf24dba5fb0a30e26e83b2ac5b9e29e1b161e5c1fa7425e73043362938b9824.aiff"
    );
}

#[test]
fn fish_request_body_carries_text_and_voice() {
    let body = fish_tts_request_body("hi there", None).expect("serializes");
    let v: serde_json::Value = serde_json::from_str(&body).unwrap();
    assert_eq!(v["text"], "hi there");
    assert_eq!(v["reference_id"], "af_bella");
    assert_eq!(v["format"], "mp3");
    assert_eq!(v["latency"], "normal");
    let body = fish_tts_request_body("hi", Some("voice-7")).unwrap();
    let v: serde_json::Value = serde_json::from_str(&body).unwrap();
    assert_eq!(v["reference_id"], "voice-7");
}

#[test]
fn basic_texts_cover_all_events() {
    assert_eq!(
        basic_voice_texts(),
        vec![
            "notification event",
            "stop event",
            "pre tool use event",
            "post tool use event",
            "subagent stop event",
        ]
    );
}

#[test]
fn recent_projects_are_parsed_deduplicated_and_capped() {
    let log = "noise\nWorking directory: /a \nWorking directory: /a\n/Users/x/Development/y\nrelative/Development/path\n";
    // " /a " trims to "/a" and deduplicates with the identical next
    // line; the relative path is not taken.
    assert_eq!(
        get_recent_projects(log),
        vec!["/a".to_string(), "/Users/x/Development/y".to_string()]
    );
    let mut many = String::new();
    for i in 0..15 {
        many.push_str(&format!("Working directory: /p{}\n", i));
    }
    assert_eq!(get_recent_projects(&many).len(), 10);
    assert_eq!(get_recent_projects(""), Vec::<String>::new());
}

#[test]
fn sound_listing_keeps_only_sound_files() {
    let names = vec![
        "/s/ping.aiff".to_string(),
        "/s/b.wav".to_string(),
        "/s/c.mp3".to_string(),
        "/s/readme.txt".to_string(),
        "/s/noext".to_string(),
        "/s/.aiff".to_string(),
    ];
    assert_eq!(
        list_custom_sounds(&names),
        vec!["/s/ping.aiff".to_string(), "/s/b.wav".to_string(), "/s/c.mp3".to_string()]
    );
}

#[test]
fn sanitize_redacts_api_keys() {
    let text = "enabled: true\nfish_audio_api_key: abc123\nvoice_id: v\n";
    assert_eq!(
        sanitize_config(text),
        "enabled: true\nfish_audio_api_key:  [REDACTED]\nvoice_id: v"
    );
}

#[test]
fn activity_log_is_reversed() {
    let log = r#"[
        {"timestamp": "t1", "event": "stop", "audio": true, "visual": false},
        {"timestamp": "t2", "event": "notification", "audio": false, "visual": true,
         "message": "hi", "project": null}
    ]"#;
    let events = get_activity_log(Some(log)).expect("parses");
    assert_eq!(events.len(), 2);
    assert_eq!(events[0].timestamp, "t2");
    assert_eq!(events[0].message.as_deref(), Some("hi"));
    assert!(events[0].project.is_none());
    assert!(events[0].visual);
    assert_eq!(events[1].timestamp, "t1");
    assert!(events[1].audio);

    assert!(get_activity_log(None).unwrap().is_empty());
    assert!(matches!(get_activity_log(Some("not json")), Err(LibError::ParseError)));
    assert!(matches!(
        get_activity_log(Some(r#"[{"timestamp": 1}]"#)),
        Err(LibError::ParseError)
    ));
}

#[test]
fn diagnostics_report_collects_everything() {
    let settings = r#"{"hooks": {"Stop": []}}"#.to_string();
    let activity = r#"[{"n": 1}, {"n": 2}, {"n": 3}]"#.to_string();
    let hook_log = "l1\nl2\nl3\n".to_string();
    let config = "fish_audio_api_key: abc123\n".to_string();
    let version = " 14.5\n".to_string();
    let out = export_diagnostics(
        "2024-01-02T03:04:05+00:00",
        Some(&version),
        true,
        false,
        false,
        true,
        Some(&settings),
        Some(&activity),
        Some(&hook_log),
        Some(&config),
    )
    .expect("serializes");
    let v: serde_json::Value = serde_json::from_str(&out).unwrap();
    assert_eq!(v["app_version"], "1.0.0");
    assert_eq!(v["collected_at"], "2024-01-02T03:04:05+00:00");
    assert_eq!(v["macos_version"], "14.5");
    assert_eq!(v["scripts_installed"]["smart_notify_exists"], true);
    assert_eq!(v["scripts_installed"]["smart_notify_executable"], false);
    assert_eq!(v["terminal_notifier"]["system_installed"], false);
    assert_eq!(v["terminal_notifier"]["bundled_exists"], true);
    assert!(v["hooks_configured"]["Stop"].is_array());
    // Most recent activity first.
    assert_eq!(v["recent_activity"][0]["n"], 3);
    assert_eq!(v["recent_activity"][2]["n"], 1);
    assert_eq!(v["hook_execution_log"][0], "l1");
    assert_eq!(v["config_yaml"], "fish_audio_api_key:  [REDACTED]");
}

#[test]
fn diagnostics_report_without_optional_parts() {
    let out = export_diagnostics(
        "now", None, false, false, false, false, None, None, None, None,
    )
    .unwrap();
    let v: serde_json::Value = serde_json::from_str(&out).unwrap();
    assert!(v.get("macos_version").is_none());
    assert!(v.get("hooks_configured").is_none());
    assert!(v.get("recent_activity").is_none());
    assert!(v.get("hook_execution_log").is_none());
    assert!(v.get("config_yaml").is_none());
    assert_eq!(v["app_version"], "1.0.0");
}

#[test]
fn upload_destination_uses_the_file_name() {
    assert_eq!(
        upload_sound_dest("/home/u", "/tmp/ding.wav"),
        Some("/home/u/.assist/sounds/ding.wav".to_string())
    );
    assert_eq!(
        upload_sound_dest("/home/u", "bare.mp3"),
        Some("/home/u/.assist/sounds/bare.mp3".to_string())
    );
    // Trailing slashes are ignored, as the original's path handling
    // ignored them; a bare root or a parent reference has no name.
    assert_eq!(
        upload_sound_dest("/home/u", "/tmp/dir/"),
        Some("/home/u/.assist/sounds/dir".to_string())
    );
    assert_eq!(upload_sound_dest("/home/u", "/"), None);
    assert_eq!(upload_sound_dest("/home/u", "/tmp/.."), None);
}

#[test]
fn pregenerate_plan_skips_cached_lines() {
    let cached = vec![true, false, true, false, true];
    assert_eq!(
        pregenerate_plan(&cached),
        vec!["stop event".to_string(), "post tool use event".to_string()]
    );
    assert_eq!(pregenerate_plan(&vec![true; 5]), Vec::<String>::new());
    assert_eq!(pregenerate_plan(&vec![false; 5]).len(), 5);
}

#[test]
fn text_helpers_behave() {
    assert!(contains_sub("bash smart-notify.sh stop", "smart-notify.sh"));
    assert!(!contains_sub("bash other.sh", "smart-notify.sh"));
    assert!(contains_sub("anything", ""));
    assert!(str_eq("abc", "abc"));
    assert!(!str_eq("abc", "abd"));
    assert_eq!(replace_sub("{event} event", "{event}", "stop"), "stop event");
    assert_eq!(replace_sub("aaa", "aa", "b"), "ba");
    assert_eq!(replace_sub("x", "nope", "y"), "x");
    assert_eq!(u64_to_string(0), "0");
    assert_eq!(u64_to_string(1700000000), "1700000000");
    assert_eq!(join_comma(&vec!["a".to_string(), "b".to_string()]), "a, b");
    assert_eq!(join_comma(&Vec::new()), "");
    assert_eq!(trim("  hi \r\n"), "hi");
    assert_eq!(split_lines("a\r\nb\nc"), vec!["a", "b", "c"]);
    assert_eq!(split_lines(""), Vec::<String>::new());
    assert_eq!(log_tail("1\n2\n3\n4", 2), vec!["3", "4"]);
}
