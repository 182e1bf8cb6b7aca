//! The fixed paths this tool uses, all under the host tool's state
//! directory in the user's home directory.

use vstd::prelude::*;

verus! {

/// The host tool's state directory.
pub fn state_dir(home: &str) -> (r: String)
    ensures
        r@ == home@ + "/.assist"@,
{
    home.to_owned().concat("/.assist")
}

/// The tool's own YAML configuration file.
pub fn get_config_path(home: &str) -> (r: String)
    ensures
        r@ == home@ + "/.assist/audio-notifier.yaml"@,
{
    home.to_owned().concat("/.assist/audio-notifier.yaml")
}

/// The sentinel whose existence enables sounds.
pub fn get_sounds_enabled_path(home: &str) -> (r: String)
    ensures
        r@ == home@ + "/.assist/.sounds-enabled"@,
{
    home.to_owned().concat("/.assist/.sounds-enabled")
}

/// The directory of user-uploaded sounds.
pub fn get_custom_sounds_dir(home: &str) -> (r: String)
    ensures
        r@ == home@ + "/.assist/sounds"@,
{
    home.to_owned().concat("/.assist/sounds")
}

/// The cache directory of generated voice files.
pub fn get_voice_cache_dir(home: &str) -> (r: String)
    ensures
        r@ == home@ + "/.assist/voices"@,
{
    home.to_owned().concat("/.assist/voices")
}

/// The installation manifest file.
pub fn get_manifest_path(home: &str) -> (r: String)
    ensures
        r@ == home@ + "/.assist/audio-notifier-install.json"@,
{
    home.to_owned().concat("/.assist/audio-notifier-install.json")
}

/// The directory settings backups are written to.
pub fn get_backup_dir(home: &str) -> (r: String)
    ensures
        r@ == home@ + "/.assist/backups"@,
{
    home.to_owned().concat("/.assist/backups")
}

/// The host tool's shared settings document.
pub fn settings_path(home: &str) -> (r: String)
    ensures
        r@ == home@ + "/.assist/settings.json"@,
{
    home.to_owned().concat("/.assist/settings.json")
}

/// The sentinel written by uninstall to stop any auto-reinstall.
pub fn uninstalled_marker_path(home: &str) -> (r: String)
    ensures
        r@ == home@ + "/.assist/.uninstalled"@,
{
    home.to_owned().concat("/.assist/.uninstalled")
}

/// The directory the tool's scripts are installed into.
pub fn scripts_dir(home: &str) -> (r: String)
    ensures
        r@ == home@ + "/.assist/scripts"@,
{
    home.to_owned().concat("/.assist/scripts")
}

} // verus!
