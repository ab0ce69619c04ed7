//! Backup bookkeeping: the metadata stored beside each archive and the
//! human-readable size rendering used in backup listings. Creating,
//! listing, and restoring the archives themselves is file-system work
//! done by the surrounding application.

use vstd::prelude::*;

use crate::text::dec_of;

verus! {

#[derive(Debug, Clone, Copy, PartialEq, Eq, Structural)]
pub enum BackupType {
    Full,
    ConfigOnly,
    TasksOnly,
    PasswordsOnly,
}

/// What a backup contained and when it was made.
#[derive(Debug, Clone)]
pub struct BackupMetadata {
    pub created_at: i64,
    pub version: String,
    pub backup_type: BackupType,
    pub file_count: usize,
    pub total_size_bytes: u64,
    pub description: String,
}

/// One backup on disk: its file name, its metadata, and its full path.
#[derive(Debug, Clone)]
pub struct BackupInfo {
    pub filename: String,
    pub metadata: BackupMetadata,
    pub file_path: String,
}

/// Total size in bytes of the first `n` listed backups.
pub open spec fn total_backup_bytes(backups: Seq<BackupInfo>, n: int) -> int
    decreases n,
{
    if n <= 0 {
        0
    } else {
        total_backup_bytes(backups, n - 1) + backups[n - 1].metadata.total_size_bytes
    }
}

/// Picks the backups to delete from a listing ordered newest first:
/// everything beyond the first `keep_count`, returned by file name in
/// listing order.
pub fn cleanup_old_backups(backups: &Vec<BackupInfo>, keep_count: usize) -> (r: Vec<String>)
    ensures
        backups@.len() <= keep_count ==> r@.len() == 0,
        backups@.len() > keep_count ==> r@.len() == backups@.len() - keep_count,
        forall|i: int| 0 <= i < r@.len()
            ==> r@[i]@ == backups@[keep_count + i].filename@,
{
    let mut deleted: Vec<String> = Vec::new();
    if backups.len() <= keep_count {
        return deleted;
    }
    let n = backups.len();
    let mut i: usize = keep_count;
    while i < n
        invariant
            n == backups@.len(),
            keep_count <= i <= n,
            deleted@.len() == i - keep_count,
            forall|j: int| 0 <= j < deleted@.len()
                ==> deleted@[j]@ == backups@[keep_count + j].filename@,
        decreases n - i,
    {
        deleted.push(backups[i].filename.clone());
        i += 1;
    }
    deleted
}

/// Counts the listed backups and sums their sizes; a sum beyond the
/// machine range saturates.
pub fn get_backup_stats(backups: &Vec<BackupInfo>) -> (r: (usize, u64))
    ensures
        r.0 == backups@.len(),
        total_backup_bytes(backups@, backups@.len() as int) <= u64::MAX
            ==> r.1 == total_backup_bytes(backups@, backups@.len() as int),
        total_backup_bytes(backups@, backups@.len() as int) > u64::MAX ==> r.1 == u64::MAX,
{
    let n = backups.len();
    proof {
        lemma_total_bytes_monotone(backups@, 0, n as int);
    }
    let mut total: u64 = 0;
    let mut saturated = false;
    let mut i: usize = 0;
    while i < n
        invariant
            n == backups@.len(),
            0 <= i <= n,
            !saturated ==> total == total_backup_bytes(backups@, i as int),
            saturated ==> (total == u64::MAX && total_backup_bytes(backups@, i as int)
                > u64::MAX),
            total_backup_bytes(backups@, i as int)
                <= total_backup_bytes(backups@, n as int),
        decreases n - i,
    {
        proof {
            lemma_total_bytes_monotone(backups@, i + 1, n as int);
        }
        let size = backups[i].metadata.total_size_bytes;
        match total.checked_add(size) {
            Some(next) => {
                if !saturated {
                    total = next;
                }
            },
            None => {
                if !saturated {
                    saturated = true;
                    total = u64::MAX;
                }
            },
        }
        i += 1;
    }
    (n, total)
}

/// A longer prefix of the listing never sums to less.
proof fn lemma_total_bytes_monotone(backups: Seq<BackupInfo>, n1: int, n2: int)
    requires
        n1 <= n2 <= backups.len(),
    ensures
        total_backup_bytes(backups, n1) <= total_backup_bytes(backups, n2),
    decreases n2 - n1,
{
    if n1 < n2 {
        lemma_total_bytes_monotone(backups, n1, n2 - 1);
    }
}

/// The unit bucket a byte count falls into: bytes, kibi, mebi, gibi.
pub open spec fn size_unit_index(bytes: nat) -> nat {
    if bytes < 1024 {
        0
    } else if bytes < 1048576 {
        1
    } else if bytes < 1073741824 {
        2
    } else {
        3
    }
}

pub open spec fn size_unit_name(k: nat) -> Seq<char> {
    if k == 0 {
        "B"@
    } else if k == 1 {
        "KB"@
    } else if k == 2 {
        "MB"@
    } else {
        "GB"@
    }
}

pub open spec fn size_divisor(k: nat) -> nat {
    if k == 0 {
        1
    } else if k == 1 {
        1024
    } else if k == 2 {
        1048576
    } else {
        1073741824
    }
}

/// The size in tenths of the chosen unit, rounded to the nearest tenth.
pub open spec fn size_in_tenths(bytes: nat) -> nat {
    let d = size_divisor(size_unit_index(bytes));
    (bytes / d) * 10 + ((bytes % d) * 10 + d / 2) / d
}

/// A byte count rendered with one rounded decimal place and its unit,
/// as backup listings show it.
pub open spec fn backup_size_text(bytes: nat) -> Seq<char> {
    let tenths = size_in_tenths(bytes);
    dec_of(tenths / 10) + "."@ + dec_of(tenths % 10) + " "@ + size_unit_name(
        size_unit_index(bytes),
    )
}

/// Renders a byte count as [`backup_size_text`] describes.
#[verifier::rlimit(60)]
pub fn format_backup_size(bytes: u64) -> (r: String)
    ensures
        r@ == backup_size_text(bytes as nat),
{
    let div: u64 = if bytes < 1024 {
        1
    } else if bytes < 1048576 {
        1024
    } else if bytes < 1073741824 {
        1048576
    } else {
        1073741824
    };
    let unit: &str = if bytes < 1024 {
        "B"
    } else if bytes < 1048576 {
        "KB"
    } else if bytes < 1073741824 {
        "MB"
    } else {
        "GB"
    };
    assert(div as nat == size_divisor(size_unit_index(bytes as nat)));
    assert(unit@ == size_unit_name(size_unit_index(bytes as nat)));
    let tenths: u64 = (bytes / div) * 10 + ((bytes % div) * 10 + div / 2) / div;
    assert(tenths as nat == size_in_tenths(bytes as nat));
    let whole = crate::text::u64_to_string(tenths / 10);
    let frac = crate::text::u64_to_string(tenths % 10);
    whole.concat(".").concat(frac.as_str()).concat(" ").concat(unit)
}

} // verus!
