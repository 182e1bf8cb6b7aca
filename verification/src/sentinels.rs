//! The zero-byte sentinel files whose mere existence toggles state:
//! sounds enabled, and the uninstalled marker.

use vstd::prelude::*;

use crate::paths::{get_sounds_enabled_path, uninstalled_marker_path};
use crate::vfs::FileStore;

verus! {

/// Whether sounds are enabled: the sentinel file exists.
pub fn get_sounds_enabled(fs: &FileStore, home: &str) -> (r: bool)
    requires
        fs.wf(),
    ensures
        r == fs@.contains_key(home@ + "/.assist/.sounds-enabled"@),
{
    let p = get_sounds_enabled_path(home);
    fs.has_file(p.as_str())
}

/// Enable or disable sounds by creating or removing the sentinel.
pub fn set_sounds_enabled(fs: &mut FileStore, home: &str, enabled: bool)
    requires
        old(fs).wf(),
    ensures
        final(fs).wf(),
        enabled ==> final(fs)@ == old(fs)@.insert(
            home@ + "/.assist/.sounds-enabled"@,
            Seq::empty(),
        ),
        !enabled ==> final(fs)@ == old(fs)@.remove(home@ + "/.assist/.sounds-enabled"@),
{
    let p = get_sounds_enabled_path(home);
    if enabled {
        fs.write(p.as_str(), String::new());
    } else {
        fs.remove(p.as_str());
    }
}

/// Whether the tool was uninstalled: the marker file exists.
pub fn was_uninstalled(fs: &FileStore, home: &str) -> (r: bool)
    requires
        fs.wf(),
    ensures
        r == fs@.contains_key(home@ + "/.assist/.uninstalled"@),
{
    let p = uninstalled_marker_path(home);
    fs.has_file(p.as_str())
}

} // verus!
