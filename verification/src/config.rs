//! The tool's own YAML configuration schema: per-event sound and voice
//! settings, globally and per project, with the documented defaults,
//! and the recovery rule for an unreadable configuration file.

use vstd::prelude::*;

verus! {

/// The sound chosen for each hook event.
#[derive(Debug, Clone)]
pub struct EventSounds {
    pub notification: String,
    pub stop: String,
    pub pre_tool_use: String,
    pub post_tool_use: String,
    pub subagent_stop: String,
}

/// Whether each hook event is enabled.
#[derive(Debug, Clone)]
pub struct EventEnabled {
    pub notification: bool,
    pub stop: bool,
    pub pre_tool_use: bool,
    pub post_tool_use: bool,
    pub subagent_stop: bool,
}

/// Settings for one project.
#[derive(Debug, Clone)]
pub struct ProjectConfig {
    pub path: String,
    pub display_name: Option<String>,
    pub enabled: bool,
    pub event_sounds: EventSounds,
    pub event_enabled: EventEnabled,
    pub voice_enabled: EventEnabled,
}

/// Settings that apply to every project.
#[derive(Debug, Clone)]
pub struct GlobalSettings {
    pub enabled: bool,
    pub event_sounds: EventSounds,
    pub event_enabled: EventEnabled,
    pub voice_enabled: EventEnabled,
    pub voice_template: String,
    pub voice_provider: String,
    pub voice_id: Option<String>,
    pub fish_audio_api_key: Option<String>,
    pub respect_do_not_disturb: bool,
}

/// The whole configuration document.
#[derive(Debug, Clone)]
pub struct Config {
    pub global_mode: bool,
    pub global_settings: GlobalSettings,
    pub projects: Vec<ProjectConfig>,
    pub sound_library: Vec<String>,
    pub min_interval: u32,
    pub debug: bool,
}

/// The default per-event enablement: notification, stop and subagent
/// stop on; the tool-use events off.
pub open spec fn default_enabled_spec(e: EventEnabled) -> bool {
    &&& e.notification == true
    &&& e.stop == true
    &&& e.pre_tool_use == false
    &&& e.post_tool_use == false
    &&& e.subagent_stop == true
}

/// The default enablement of sound notifications for each event.
pub fn default_event_enabled() -> (r: EventEnabled)
    ensures
        default_enabled_spec(r),
{
    EventEnabled {
        notification: true,
        stop: true,
        pre_tool_use: false,
        post_tool_use: false,
        subagent_stop: true,
    }
}

/// The default enablement of voice notifications for each event.
pub fn default_event_voice_enabled() -> (r: EventEnabled)
    ensures
        default_enabled_spec(r),
{
    EventEnabled {
        notification: true,
        stop: true,
        pre_tool_use: false,
        post_tool_use: false,
        subagent_stop: true,
    }
}

/// The default template for synthesized voice lines.
pub fn default_voice_template() -> (r: String)
    ensures
        r@ == "{event} event"@,
{
    "{event} event".to_owned()
}

/// The default voice provider: the system synthesizer.
pub fn default_voice_provider() -> (r: String)
    ensures
        r@ == "system"@,
{
    "system".to_owned()
}

/// The twelve bundled system sounds of the default library, in order.
pub open spec fn default_sound_library() -> Seq<Seq<char>> {
    seq![
        "/System/Library/Sounds/Ping.aiff"@,
        "/System/Library/Sounds/Glass.aiff"@,
        "/System/Library/Sounds/Hero.aiff"@,
        "/System/Library/Sounds/Submarine.aiff"@,
        "/System/Library/Sounds/Tink.aiff"@,
        "/System/Library/Sounds/Pop.aiff"@,
        "/System/Library/Sounds/Funk.aiff"@,
        "/System/Library/Sounds/Purr.aiff"@,
        "/System/Library/Sounds/Blow.aiff"@,
        "/System/Library/Sounds/Bottle.aiff"@,
        "/System/Library/Sounds/Frog.aiff"@,
        "/System/Library/Sounds/Basso.aiff"@,
    ]
}

/// The default configuration document.
pub open spec fn default_config_spec(c: Config) -> bool {
    &&& c.global_mode == true
    &&& c.global_settings.enabled == true
    &&& c.global_settings.event_sounds.notification@ == "voice:simple"@
    &&& c.global_settings.event_sounds.stop@ == "voice:simple"@
    &&& c.global_settings.event_sounds.pre_tool_use@ == "voice:simple"@
    &&& c.global_settings.event_sounds.post_tool_use@ == "voice:simple"@
    &&& c.global_settings.event_sounds.subagent_stop@ == "voice:simple"@
    &&& default_enabled_spec(c.global_settings.event_enabled)
    &&& default_enabled_spec(c.global_settings.voice_enabled)
    &&& c.global_settings.voice_template@ == "{event} event"@
    &&& c.global_settings.voice_provider@ == "fish_audio"@
    &&& c.global_settings.voice_id is None
    &&& c.global_settings.fish_audio_api_key is None
    &&& c.global_settings.respect_do_not_disturb == false
    &&& c.projects@.len() == 0
    &&& crate::text::str_views(c.sound_library@) == default_sound_library()
    &&& c.min_interval == 2u32
    &&& c.debug == false
}

impl Default for Config {
    /// The configuration used when none has been saved yet: global
    /// mode, voice notifications through the fish_audio provider, and
    /// a library of the system's bundled sounds.
    fn default() -> (r: Config)
        ensures
            default_config_spec(r),
    {
        let system_sounds: Vec<String> = vec![
            "/System/Library/Sounds/Ping.aiff".to_owned(),
            "/System/Library/Sounds/Glass.aiff".to_owned(),
            "/System/Library/Sounds/Hero.aiff".to_owned(),
            "/System/Library/Sounds/Submarine.aiff".to_owned(),
            "/System/Library/Sounds/Tink.aiff".to_owned(),
            "/System/Library/Sounds/Pop.aiff".to_owned(),
            "/System/Library/Sounds/Funk.aiff".to_owned(),
            "/System/Library/Sounds/Purr.aiff".to_owned(),
            "/System/Library/Sounds/Blow.aiff".to_owned(),
            "/System/Library/Sounds/Bottle.aiff".to_owned(),
            "/System/Library/Sounds/Frog.aiff".to_owned(),
            "/System/Library/Sounds/Basso.aiff".to_owned(),
        ];
        proof {
            assert(crate::text::str_views(system_sounds@) =~= default_sound_library());
        }
        Config {
            global_mode: true,
            global_settings: GlobalSettings {
                enabled: true,
                event_sounds: EventSounds {
                    notification: "voice:simple".to_owned(),
                    stop: "voice:simple".to_owned(),
                    pre_tool_use: "voice:simple".to_owned(),
                    post_tool_use: "voice:simple".to_owned(),
                    subagent_stop: "voice:simple".to_owned(),
                },
                event_enabled: default_event_enabled(),
                voice_enabled: default_event_voice_enabled(),
                voice_template: default_voice_template(),
                voice_provider: "fish_audio".to_owned(),
                voice_id: None,
                fish_audio_api_key: None,
                respect_do_not_disturb: false,
            },
            projects: Vec::new(),
            sound_library: system_sounds,
            min_interval: 2,
            debug: false,
        }
    }
}

/// Resolve a configuration load. `file_existed` says whether the
/// configuration file was on disk, `parsed` what it parsed to under
/// the current schema. The result pairs the configuration to use with
/// whether the default must be persisted back (the auto-migration of
/// an unreadable file); a missing file is not persisted.
pub fn resolve_loaded_config(file_existed: bool, parsed: Option<Config>) -> (r: (Config, bool))
    ensures
        !file_existed ==> default_config_spec(r.0) && r.1 == false,
        file_existed && parsed is None ==> default_config_spec(r.0) && r.1 == true,
        file_existed && parsed is Some ==> r.0 == parsed->0 && r.1 == false,
{
    if !file_existed {
        (Config::default(), false)
    } else {
        match parsed {
            Some(c) => (c, false),
            None => (Config::default(), true),
        }
    }
}

} // verus!
