use vstd::prelude::*;

use crate::text::{contains_char, last_index_of_char, rfind_char, str_eq};

verus! {

/// What the caller must do with a manifest file after the engine ran: leave
/// it alone, rotate the backup and overwrite, or overwrite without a backup.
#[derive(Clone, Copy, PartialEq, Eq, Structural, Debug)]
pub enum FileAction {
    /// The new text is byte-identical to the old: no backup, no write.
    NoChange,
    /// Replace any stale backup with a copy of the file as it stands now,
    /// then overwrite the file with the new text.
    WriteWithBackup,
    /// Overwrite the file without keeping a backup.
    WriteUnsafe,
}

/// Decide how a manifest file is finalized: an unchanged text is never
/// written and never backed up; a changed one is backed up first unless
/// backups are switched off.
pub fn plan_file_action(original: &str, new_text: &str, unsafe_file_updates: bool) -> (r:
    FileAction)
    ensures
        (r is NoChange) == (original@ == new_text@),
        (r is WriteWithBackup) == (original@ != new_text@ && !unsafe_file_updates),
        (r is WriteUnsafe) == (original@ != new_text@ && unsafe_file_updates),
{
    if str_eq(original, new_text) {
        FileAction::NoChange
    } else if unsafe_file_updates {
        FileAction::WriteUnsafe
    } else {
        FileAction::WriteWithBackup
    }
}

/// Where a manifest's recovery copy lives: the sibling file `<path>.old`,
/// overwritten on each run so it always holds the immediately prior state.
pub fn backup_path(path: &str) -> (r: String)
    ensures
        r@ == path@ + ".old"@,
{
    path.to_owned().concat(".old")
}

/// The manifest path's directory part, up to and including the last `/`;
/// empty when the path has no directory part.
pub open spec fn spec_dir_prefix(path: Seq<char>) -> Seq<char> {
    if contains_char(path, '/') {
        path.take(last_index_of_char(path, '/') + 1)
    } else {
        Seq::empty()
    }
}

/// The manifest's own file name, after the last `/`.
pub open spec fn spec_file_name(path: Seq<char>) -> Seq<char> {
    if contains_char(path, '/') {
        path.skip(last_index_of_char(path, '/') + 1)
    } else {
        path
    }
}

/// Where a workspace member's manifest lives: the member directory beside the
/// current manifest, holding a file of the same name.
pub open spec fn spec_member_path(path: Seq<char>, member: Seq<char>) -> Seq<char> {
    spec_dir_prefix(path) + member + "/"@ + spec_file_name(path)
}

/// The manifest paths of the workspace members, one per member, in order.
/// Each member is resolved independently of the others, so a failure on one
/// member's file leaves every other member's path intact for the caller to
/// try.
pub fn member_manifest_paths(manifest_path: &str, members: &Vec<String>) -> (r: Vec<String>)
    ensures
        r@.len() == members@.len(),
        forall|i: int|
            0 <= i < members@.len() ==> #[trigger] r@[i]@ == spec_member_path(
                manifest_path@,
                members@[i]@,
            ),
{
    let plen = manifest_path.unicode_len();
    let dir: String;
    let file: String;
    match rfind_char(manifest_path, '/') {
        Some(j) => {
            dir = manifest_path.substring_char(0, j + 1).to_owned();
            file = manifest_path.substring_char(j + 1, plen).to_owned();
            proof {
                assert(dir@ =~= spec_dir_prefix(manifest_path@));
                assert(file@ =~= spec_file_name(manifest_path@));
            }
        },
        None => {
            dir = String::new();
            file = manifest_path.to_owned();
            proof {
                assert(dir@ =~= spec_dir_prefix(manifest_path@));
            }
        },
    }
    let n = members.len();
    let mut out: Vec<String> = Vec::new();
    let mut i: usize = 0;
    while i < n
        invariant
            n == members@.len(),
            0 <= i <= n,
            dir@ == spec_dir_prefix(manifest_path@),
            file@ == spec_file_name(manifest_path@),
            out@.len() == i,
            forall|t: int|
                0 <= t < i ==> #[trigger] out@[t]@ == spec_member_path(
                    manifest_path@,
                    members@[t]@,
                ),
        decreases n - i,
    {
        let m = &members[i];
        let p = dir.clone().concat(m.as_str()).concat("/").concat(file.as_str());
        proof {
            assert(p@ =~= spec_member_path(manifest_path@, members@[i as int]@));
        }
        out.push(p);
        i = i + 1;
    }
    out
}

} // verus!
