//! Decisions of the maps-symlink commands: what to do with whatever
//! occupies the link target, and how a displaced directory is named.

use vstd::prelude::*;
use crate::error::{CommandError, CommandResult, prefixed};
use crate::numfmt::{spec_dec, u64_to_dec};

verus! {

/// What currently sits at the link target.
#[derive(Clone, Copy, Debug, PartialEq, Eq, Structural)]
pub enum TargetState {
    /// Nothing exists there.
    MissingTarget,
    /// An existing symlink or junction.
    SymlinkAt,
    /// A real directory.
    DirAt,
    /// Something else (a plain file, say).
    OtherAt,
}

/// What the shell must do before creating the link.
#[derive(Clone, Copy, Debug, PartialEq, Eq, Structural)]
pub enum SymlinkPrep {
    /// The target is free: create the link.
    CreateNow,
    /// Remove the existing link, then create.
    RemoveLinkFirst,
    /// Rename the existing directory to a fresh backup name, then
    /// create.
    BackupDirFirst,
}

/// Decide how to make way for the maps symlink.  The source must be
/// a directory; a target that is neither a symlink nor a directory
/// is refused rather than touched.
pub fn plan_symlink_creation(
    source_is_dir: bool,
    target_state: TargetState,
    source: &str,
    target: &str,
) -> (r: CommandResult<SymlinkPrep>)
    ensures
        !source_is_dir ==> (r matches Err(e) && e matches CommandError::Input(m) && m@
            == "Source not a directory: "@ + source@),
        source_is_dir ==> match target_state {
            TargetState::MissingTarget => r == Ok::<SymlinkPrep, CommandError>(
                SymlinkPrep::CreateNow,
            ),
            TargetState::SymlinkAt => r == Ok::<SymlinkPrep, CommandError>(
                SymlinkPrep::RemoveLinkFirst,
            ),
            TargetState::DirAt => r == Ok::<SymlinkPrep, CommandError>(
                SymlinkPrep::BackupDirFirst,
            ),
            TargetState::OtherAt => r matches Err(e) && e matches CommandError::Input(m) && m@
                == "Target '"@ + target@ + "' exists but is not a symlink or dir. Remove it manually."@,
        },
{
    if !source_is_dir {
        return Err(CommandError::Input(prefixed("Source not a directory: ", source)));
    }
    match target_state {
        TargetState::MissingTarget => Ok(SymlinkPrep::CreateNow),
        TargetState::SymlinkAt => Ok(SymlinkPrep::RemoveLinkFirst),
        TargetState::DirAt => Ok(SymlinkPrep::BackupDirFirst),
        TargetState::OtherAt => {
            let mut m = prefixed("Target '", target);
            m.append("' exists but is not a symlink or dir. Remove it manually.");
            Err(CommandError::Input(m))
        },
    }
}

/// The name a displaced directory is parked under: `_backup`, then
/// `_backup_1`, `_backup_2`, … until one is free.
pub fn backup_name(target: &str, attempt: u64) -> (r: String)
    ensures
        attempt == 0 ==> r@ == target@ + "_backup"@,
        attempt > 0 ==> r@ == target@ + "_backup_"@ + spec_dec(attempt as nat),
{
    if attempt == 0 {
        prefixed(target, "_backup")
    } else {
        let mut r = prefixed(target, "_backup_");
        r.append(u64_to_dec(attempt).as_str());
        r
    }
}

} // verus!
