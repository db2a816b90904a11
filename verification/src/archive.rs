//! Moving old wallpapers out of the way: which files are due, where they
//! go, and the report.

use vstd::prelude::*;
use vstd::string::*;
use crate::text::{decimal, decimal_text, join_path, joined};

verus! {

/// A week, in nanoseconds.
pub const WEEK: u128 = 604_800_000_000_000;

/// Whether an entry is moved to the archive: a file last changed more than
/// a week before `now`. Both times count nanoseconds from the same instant.
pub open spec fn due(is_file: bool, modified: u128, now: u128) -> bool {
    is_file && modified + WEEK < now
}

/// Whether an entry is moved to the archive.
pub fn is_due(is_file: bool, modified: u128, now: u128) -> (r: bool)
    ensures
        r == due(is_file, modified, now),
{
    is_file && now > WEEK && modified < now - WEEK
}

/// Where the file named `file_name` lies once archived.
pub fn archived_path(archive_dir: &str, file_name: &str) -> (path: String)
    ensures
        path@ == joined(archive_dir@, file_name@),
{
    join_path(archive_dir, file_name)
}

/// The report of an archiving run.
pub open spec fn report_of(archived: nat, total: nat) -> Seq<char> {
    "Archived "@ + decimal(archived) + " files. Total files in archive: "@ + decimal(total)
}

/// The report of an archiving run: how many files were moved, and how many
/// the archive holds.
pub fn report(archived: u64, total: u64) -> (line: String)
    ensures
        line@ == report_of(archived as nat, total as nat),
{
    let mut line = "Archived ".to_owned();
    line.append(decimal_text(archived).as_str());
    line.append(" files. Total files in archive: ");
    line.append(decimal_text(total).as_str());
    line
}

} // verus!
