//! Remote commands and file transfer: checking their inputs and describing
//! directory entries.
use vstd::prelude::*;
use crate::errors::{invalid_input, AppError, ErrorView};
use crate::text::{is_blank_str, trim, trim_str};

verus! {

/// The file-type bits of a Unix mode.
pub const FILE_TYPE_MASK: u32 = 0o170000;

/// An entry of a remote directory.
pub struct SftpEntry {
    pub name: String,
    pub path: String,
    pub kind: String,
    pub size: Option<u64>,
    pub permissions: Option<u32>,
    pub modified_at: Option<u64>,
}

/// The kind of an entry with the given mode: `dir`, `file` or `symlink` by
/// its file-type bits, `unknown` otherwise or where the mode is unknown.
pub open spec fn kind_of(perm: Option<u32>) -> Seq<char> {
    match perm {
        Some(p) => if p & 0o170000u32 == 0o040000u32 {
            "dir"@
        } else if p & 0o170000u32 == 0o100000u32 {
            "file"@
        } else if p & 0o170000u32 == 0o120000u32 {
            "symlink"@
        } else {
            "unknown"@
        },
        None => "unknown"@,
    }
}

/// The kind of an entry with the given mode.
pub fn entry_kind(perm: Option<u32>) -> (r: String)
    ensures
        r@ == kind_of(perm),
{
    match perm {
        Some(p) => {
            let t = p & FILE_TYPE_MASK;
            if t == 0o040000u32 {
                "dir".to_owned()
            } else if t == 0o100000u32 {
                "file".to_owned()
            } else if t == 0o120000u32 {
                "symlink".to_owned()
            } else {
                "unknown".to_owned()
            }
        },
        None => "unknown".to_owned(),
    }
}

/// The description of a directory entry from its name, path and attributes.
pub fn sftp_entry(
    name: String,
    path: String,
    size: Option<u64>,
    permissions: Option<u32>,
    modified_at: Option<u64>,
) -> (r: SftpEntry)
    ensures
        r.name == name,
        r.path == path,
        r.kind@ == kind_of(permissions),
        r.size == size,
        r.permissions == permissions,
        r.modified_at == modified_at,
{
    SftpEntry { name, path, kind: entry_kind(permissions), size, permissions, modified_at }
}

/// The directory listed for a requested path: the path trimmed, or `.`
/// where it is blank.
pub fn normalize_remote_dir(path: &str) -> (r: String)
    ensures
        r@ == if trim(path@).len() == 0 {
            "."@
        } else {
            trim(path@)
        },
{
    let t = trim_str(path);
    if t.as_str().is_empty() {
        ".".to_owned()
    } else {
        t
    }
}

/// The local and remote paths of a transfer, trimmed; refused where either
/// is blank.
pub fn transfer_paths(local_path: &str, remote_path: &str) -> (r: Result<(String, String), AppError>)
    ensures
        r is Ok <==> trim(local_path@).len() > 0 && trim(remote_path@).len() > 0,
        r matches Ok(p) ==> p.0@ == trim(local_path@) && p.1@ == trim(remote_path@),
        r matches Err(e) ==> e@ == ErrorView::InvalidInput(
            "local_path and remote_path are required"@,
        ),
{
    if is_blank_str(local_path) || is_blank_str(remote_path) {
        return Err(invalid_input("local_path and remote_path are required"));
    }
    Ok((trim_str(local_path), trim_str(remote_path)))
}

/// Refuses a blank remote command.
pub fn check_command(command: &str) -> (r: Result<(), AppError>)
    ensures
        r is Ok <==> trim(command@).len() > 0,
        r matches Err(e) ==> e@ == ErrorView::InvalidInput("command cannot be empty"@),
{
    if is_blank_str(command) {
        Err(invalid_input("command cannot be empty"))
    } else {
        Ok(())
    }
}

} // verus!
