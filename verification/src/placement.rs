//! Whether a wallpaper of the catalog is new, and where it goes on disk.
//!
//! A wallpaper is taken in only once. The record store is asked first; a
//! wallpaper that it does not know is recorded at once and then looked for
//! in the immediate subdirectories of the wallpaper directory, where earlier
//! downloads may have been moved. Only one found nowhere is downloaded: to
//! the wallpaper directory itself if it is safe for work, to `nsfw` below it
//! otherwise.

use vstd::prelude::*;
use vstd::string::*;
use vstd::utf8::encode_utf8;
use crate::database::{lookup, record_bytes, Database, DatabaseError, Lookup};
use crate::text::{join_path, joined};
use crate::wallhaven::{Wallpaper, WallpaperView};

verus! {

/// What became of a wallpaper of the catalog.
#[derive(Debug, PartialEq, Clone)]
pub enum Outcome {
    /// The record store knew it: nothing is looked up on disk or fetched.
    AlreadyRecorded,
    /// Its file is on disk already: nothing is fetched.
    AlreadyOnDisk,
    /// It is new, and belongs at this path.
    Accepted(String),
}

/// An `Outcome` with its path as plain text.
pub enum OutcomeView {
    AlreadyRecorded,
    AlreadyOnDisk,
    Accepted(Seq<char>),
}

impl View for Outcome {
    type V = OutcomeView;

    open spec fn view(&self) -> OutcomeView {
        match self {
            Outcome::AlreadyRecorded => OutcomeView::AlreadyRecorded,
            Outcome::AlreadyOnDisk => OutcomeView::AlreadyOnDisk,
            Outcome::Accepted(path) => OutcomeView::Accepted(path@),
        }
    }
}

/// Where a wallpaper is saved below `root`: under its file name, in `root`
/// itself if it is safe for work and in `nsfw` below `root` if not.
pub open spec fn target_of(root: Seq<char>, item: WallpaperView) -> Seq<char> {
    if item.is_sfw() {
        joined(root, item.file_name())
    } else {
        joined(joined(root, "nsfw"@), item.file_name())
    }
}

/// The paths at which a wallpaper's file may lie already: its file name in
/// each of `folders`, in their order, and last the path where it would be saved.
pub open spec fn probes_of(root: Seq<char>, folders: Seq<Seq<char>>, item: WallpaperView) -> Seq<
    Seq<char>,
> {
    Seq::new(folders.len(), |i: int| joined(folders[i], item.file_name())).push(
        target_of(root, item),
    )
}

/// Whether one of the paths probed holds a file.
pub open spec fn any_present(present: Seq<bool>) -> bool {
    exists|i: int| 0 <= i < present.len() && present[i]
}

/// What becomes of a wallpaper, given whether the record store knew it and
/// which of the paths probed hold a file.
pub open spec fn outcome_of(
    root: Seq<char>,
    item: WallpaperView,
    recorded: bool,
    present: Seq<bool>,
) -> OutcomeView {
    if recorded {
        OutcomeView::AlreadyRecorded
    } else if any_present(present) {
        OutcomeView::AlreadyOnDisk
    } else {
        OutcomeView::Accepted(target_of(root, item))
    }
}

/// Where `item` is saved below `root`.
pub fn target_path(root: &str, item: &Wallpaper) -> (path: String)
    ensures
        path@ == target_of(root@, item@),
{
    let name = item.file_name();
    if item.is_sfw() {
        join_path(root, name.as_str())
    } else {
        let folder = join_path(root, "nsfw");
        join_path(folder.as_str(), name.as_str())
    }
}

/// The paths to probe for `item`: its file name in each of `folders`, the
/// immediate subdirectories of `root`, and the path where it would be saved.
pub fn probes(root: &str, folders: &Vec<String>, item: &Wallpaper) -> (paths: Vec<String>)
    ensures
        paths.deep_view() == probes_of(root@, folders.deep_view(), item@),
{
    let name = item.file_name();
    let mut paths: Vec<String> = Vec::new();
    let mut i: usize = 0;
    while i < folders.len()
        invariant
            i <= folders.len(),
            paths.len() == i,
            name@ == item@.file_name(),
            forall|j: int| 0 <= j < i ==> (#[trigger] paths[j])@ == joined(folders[j]@, name@),
        decreases folders.len() - i,
    {
        paths.push(join_path(folders[i].as_str(), name.as_str()));
        i = i + 1;
    }
    paths.push(target_path(root, item));
    assert(paths.deep_view() =~= probes_of(root@, folders.deep_view(), item@));
    paths
}

/// Whether one of the paths probed holds a file.
pub fn found_on_disk(present: &Vec<bool>) -> (r: bool)
    ensures
        r == any_present(present@),
{
    let mut i: usize = 0;
    while i < present.len()
        invariant
            i <= present.len(),
            forall|j: int| 0 <= j < i ==> !present[j],
        decreases present.len() - i,
    {
        if present[i] {
            return true;
        }
        i = i + 1;
    }
    false
}

/// Decides what becomes of `item`: a wallpaper that the store knew is left
/// alone, one whose file lies at any of the paths probed is not fetched, and
/// any other is accepted for the path where it belongs.
pub fn consider(root: &str, item: &Wallpaper, recorded: bool, present: &Vec<bool>) -> (outcome:
    Outcome)
    ensures
        outcome@ == outcome_of(root@, item@, recorded, present@),
        recorded ==> !(outcome is Accepted),
        any_present(present@) ==> !(outcome is Accepted),
{
    if recorded {
        Outcome::AlreadyRecorded
    } else if found_on_disk(present) {
        Outcome::AlreadyOnDisk
    } else {
        Outcome::Accepted(target_path(root, item))
    }
}

/// Whether the store knows a wallpaper, given what a lookup of its file name
/// came to: it does where the lookup found a wallpaper, and does not where
/// the store holds nothing under the name. Any other end of the lookup is
/// passed on as the error it is.
pub fn is_recorded(found: Result<Wallpaper, DatabaseError>) -> (r: Result<bool, DatabaseError>)
    ensures
        match found {
            Ok(_) => r == Ok::<bool, DatabaseError>(true),
            Err(DatabaseError::KeyNotExist) => r == Ok::<bool, DatabaseError>(false),
            Err(e) => r == Err::<bool, DatabaseError>(e),
        },
{
    match found {
        Ok(_) => Ok(true),
        Err(DatabaseError::KeyNotExist) => Ok(false),
        Err(e) => Err(e),
    }
}

/// Asks the store whether it knows `item`, and records the item if not.
///
/// `Ok(true)`: the store held a wallpaper under the item's file name, and
/// is unchanged. `Ok(false)`: it held nothing there, and now holds the item.
/// A record that cannot be read is an error, never taken for a missing one;
/// so is a failure of the tree, after which nothing is known of the store.
pub fn screen(db: &mut Database, item: &Wallpaper) -> (r: Result<bool, DatabaseError>)
    ensures
        final(db).reserved() == old(db).reserved(),
        match r {
            Ok(true) => lookup(old(db)@, item@.file_name()) is Found && final(db)@ == old(db)@,
            Ok(false) => lookup(old(db)@, item@.file_name()) is Missing && final(db)@ == old(
                db,
            )@.insert(encode_utf8(item@.file_name()), record_bytes(item@)) && lookup(
                final(db)@,
                item@.file_name(),
            ) == Lookup::Found(item@),
            Err(DatabaseError::BinCodeError(_)) => !(lookup(old(db)@, item@.file_name()) is Found)
                && final(db)@ == old(db)@,
            Err(DatabaseError::SledError(_)) => true,
            Err(DatabaseError::KeyNotExist) => false,
        },
        old(db)@.contains_key(encode_utf8(item@.file_name())) ==> !(r matches Ok(false)),
{
    let name = item.file_name();
    match is_recorded(db.get_wallpaper_details(name.as_str())) {
        Ok(true) => Ok(true),
        Ok(false) => match db.save_to_db(name.as_str(), item) {
            Ok(_) => Ok(false),
            Err(e) => Err(e),
        },
        Err(e) => Err(e),
    }
}

} // verus!
