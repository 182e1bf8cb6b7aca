//! The backup manager: a settings snapshot is taken before every
//! mutating operation, named by the Unix timestamp of the moment, and
//! never overwritten or pruned.

use vstd::prelude::*;

use crate::text::dec_str;
use crate::vfs::FileStore;

verus! {

/// The path a backup taken at `ts` is written to.
pub open spec fn backup_file_path(home: Seq<char>, ts: nat) -> Seq<char> {
    home + "/.assist/backups/settings-pre-audio-notifier-"@ + dec_str(ts) + ".json"@
}

/// Snapshot the file at `settings_file` into the backup directory,
/// under a name embedding `timestamp`, and return the backup's path.
/// When no settings file exists there is nothing to protect: the store
/// is left untouched and the empty string is returned.
pub fn create_backup(fs: &mut FileStore, home: &str, settings_file: &str, timestamp: u64) -> (r:
    String)
    requires
        old(fs).wf(),
    ensures
        final(fs).wf(),
        !old(fs)@.contains_key(settings_file@) ==> r@ == Seq::<char>::empty() && final(fs)@
            == old(fs)@,
        old(fs)@.contains_key(settings_file@) ==> r@ == backup_file_path(
            home@,
            timestamp as nat,
        ) && final(fs)@ == old(fs)@.insert(
            backup_file_path(home@, timestamp as nat),
            old(fs)@[settings_file@],
        ),
{
    match fs.read(settings_file) {
        Some(content) => {
            let ts = crate::text::u64_to_string(timestamp);
            let path = home.to_owned().concat(
                "/.assist/backups/settings-pre-audio-notifier-",
            ).concat(ts.as_str()).concat(".json");
            assert(path@ =~= backup_file_path(home@, timestamp as nat));
            fs.write(path.as_str(), content);
            path
        },
        None => String::new(),
    }
}

} // verus!
