//! The record store: which wallpapers have been taken in already, each under
//! its file name. The records live in a `sled` tree and are written with
//! `bincode`; both are reached through the trusted functions at the top of
//! this file, and everything below them is verified against their contracts.

use vstd::prelude::*;
use vstd::string::*;
use vstd::utf8::encode_utf8;
use crate::text::{begins, join_path, joined, labelled};
use crate::wallhaven::{views_of, Thumbs, Wallpaper, WallpaperView};

verus! {

#[verifier::external_type_specification]
#[verifier::external_body]
pub struct ExTree(sled::Db);

#[verifier::external_type_specification]
#[verifier::external_body]
pub struct ExTreeError(sled::Error);

#[verifier::external_type_specification]
#[verifier::external_body]
pub struct ExCodecError(bincode::ErrorKind);

/// What a tree holds: every key in it, with the value stored under that key.
pub uninterp spec fn tree_records(tree: sled::Db) -> Map<Seq<u8>, Seq<u8>>;

/// The directory at which a tree was opened, as the path given then.
pub uninterp spec fn tree_place(tree: sled::Db) -> Seq<char>;

/// The bytes that `bincode::serialize` writes for the fields of a wallpaper,
/// taken in the order in which `Wallpaper` names them.
pub uninterp spec fn record_bytes(item: WallpaperView) -> Seq<u8>;

/// The wallpaper whose fields `bincode::deserialize` reads from `bytes` in
/// that order, where it reads them.
pub uninterp spec fn record_value(bytes: Seq<u8>) -> Option<WallpaperView>;

/// `a` and `b` agree before index `i`, where `a` ends or holds the smaller byte.
pub open spec fn below_at(a: Seq<u8>, b: Seq<u8>, i: int) -> bool {
    &&& 0 <= i <= a.len()
    &&& i < b.len()
    &&& a.subrange(0, i) == b.subrange(0, i)
    &&& i < a.len() ==> a[i] < b[i]
}

/// `a` comes before `b` in the order of a tree's keys: byte by byte, a
/// prefix before what extends it.
pub open spec fn key_below(a: Seq<u8>, b: Seq<u8>) -> bool {
    exists|i: int| below_at(a, b, i)
}

/// Each key comes before all that follow it.
pub open spec fn ascending(keys: Seq<Seq<u8>>) -> bool {
    forall|i: int, j: int|
        0 <= i < j < keys.len() ==> key_below(#[trigger] keys[i], #[trigger] keys[j])
}

/// `values` are the values that `records` holds under `keys`, which ascend;
/// a complete walk leaves no key of `records` out.
pub open spec fn walked(
    records: Map<Seq<u8>, Seq<u8>>,
    keys: Seq<Seq<u8>>,
    values: Seq<Seq<u8>>,
    complete: bool,
) -> bool {
    &&& keys.len() == values.len()
    &&& ascending(keys)
    &&& forall|i: int|
        0 <= i < keys.len() ==> records.contains_key(#[trigger] keys[i]) && records[keys[i]]
            == values[i]
    &&& complete ==> forall|k: Seq<u8>| records.contains_key(k) ==> keys.contains(k)
}

/// The fields of a wallpaper in their order, in two groups; the thumbnails
/// come last.
type Fields = (
    (String, String, String, u32, u32, String, String, String, u32),
    (u32, String, String, u32, String, String, Vec<String>, String, (String, String, String)),
);

/// `sled::open`: opens the tree stored under the directory `path`, which it
/// creates where there is none. A tree that comes back is the one at
/// `path`. Nothing is claimed of what it holds, nor of whether one comes
/// back: both depend on what the disk holds.
#[verifier::external_body]
fn tree_open(path: &str) -> (r: Result<sled::Db, sled::Error>)
    ensures
        r matches Ok(tree) ==> tree_place(tree) == path@,
{
    sled::open(path)
}

/// `sled::Tree::insert`, with the key's UTF-8 bytes as key: where it
/// succeeds the tree holds `value` under the key and is otherwise as it was.
/// Nothing is claimed of what the tree holds after a failure. The tree stays
/// where it was opened.
#[verifier::external_body]
fn tree_insert(tree: &mut sled::Db, key: &str, value: Vec<u8>) -> (r: Result<(), sled::Error>)
    ensures
        r is Ok ==> tree_records(*final(tree)) == tree_records(*old(tree)).insert(
            key.spec_bytes(),
            value@,
        ),
        tree_place(*final(tree)) == tree_place(*old(tree)),
{
    match tree.insert(key.as_bytes(), value) {
        Ok(_) => Ok(()),
        Err(e) => Err(e),
    }
}

/// `sled::Tree::get`, with the key's UTF-8 bytes as key: where it succeeds
/// it tells whether the tree holds the key, and gives the value if so.
#[verifier::external_body]
fn tree_get(tree: &sled::Db, key: &str) -> (r: Result<Option<Vec<u8>>, sled::Error>)
    ensures
        r matches Ok(Some(value)) ==> tree_records(*tree).contains_key(key.spec_bytes())
            && tree_records(*tree)[key.spec_bytes()] == value@,
        r matches Ok(None) ==> !tree_records(*tree).contains_key(key.spec_bytes()),
{
    match tree.get(key.as_bytes()) {
        Ok(found) => Ok(found.map(|value| value.to_vec())),
        Err(e) => Err(e),
    }
}

/// `sled::Tree::iter`, walked from the start until it ends or fails: the
/// values come in the ascending order of their keys, and with them the
/// error that cut the walk short, if one did. A walk without error has
/// passed every key.
#[verifier::external_body]
fn tree_walk(tree: &sled::Db) -> (r: (Vec<Vec<u8>>, Option<sled::Error>))
    ensures
        exists|keys: Seq<Seq<u8>>| #[trigger]
            walked(tree_records(*tree), keys, r.0.deep_view(), r.1 is None),
{
    let mut values = Vec::new();
    for entry in tree.iter() {
        match entry {
            Ok((_, value)) => values.push(value.to_vec()),
            Err(e) => return (values, Some(e)),
        }
    }
    (values, None)
}

/// `bincode::serialize` on the fields of a wallpaper in their order, as
/// nested tuples: bincode writes the fields one after the other and nothing
/// for a tuple itself. Where it succeeds it gives the wallpaper's bytes, and
/// `bincode::deserialize` reads the same fields back from them.
#[verifier::external_body]
fn record_encode(item: &Wallpaper) -> (r: Result<Vec<u8>, bincode::Error>)
    ensures
        r matches Ok(bytes) ==> bytes@ == record_bytes(item@) && record_value(bytes@) == Some(
            item@,
        ),
{
    let w = item;
    let t = &item.thumbs;
    bincode::serialize(&(
        (&w.id, &w.url, &w.short_url, w.views, w.favorites, &w.source, &w.purity, &w.category,
            w.dimension_x),
        (w.dimension_y, &w.resolution, &w.ratio, w.file_size, &w.file_type, &w.created_at,
            &w.colors, &w.path, (&t.large, &t.original, &t.small)),
    ))
}

/// `bincode::deserialize` into the fields of a wallpaper in their order: it
/// gives the wallpaper that the bytes hold, or fails where they hold none.
#[verifier::external_body]
fn record_decode(bytes: &[u8]) -> (r: Result<Wallpaper, bincode::Error>)
    ensures
        match r {
            Ok(item) => record_value(bytes@) == Some(item@),
            Err(_) => record_value(bytes@) is None,
        },
{
    let ((id, url, short_url, views, favorites, source, purity, category, dimension_x),
        (dimension_y, resolution, ratio, file_size, file_type, created_at, colors, path,
            (large, original, small))): Fields = bincode::deserialize(bytes)?;
    Ok(Wallpaper { id, url, short_url, views, favorites, source, purity, category,
        dimension_x, dimension_y, resolution, ratio, file_size, file_type, created_at,
        colors, path, thumbs: Thumbs { large, original, small } })
}

/// The text that `sled::Error` shows for itself.
#[verifier::external_body]
fn tree_error_text(e: &sled::Error) -> (r: String) {
    e.to_string()
}

/// The text that `bincode::ErrorKind` shows for itself.
#[verifier::external_body]
fn codec_error_text(e: &bincode::Error) -> (r: String) {
    e.to_string()
}

/// Why the store could not answer.
#[derive(Debug)]
pub enum DatabaseError {
    /// The store holds nothing under the key.
    KeyNotExist,
    /// The tree failed.
    SledError(sled::Error),
    /// A wallpaper could not be written as bytes, or bytes of the store hold none.
    BinCodeError(bincode::Error),
}

impl DatabaseError {
    /// The error in words: a fixed sentence for a missing key, and for the
    /// other two a label followed by what the tree or the codec reports.
    pub fn message(&self) -> (r: String)
        ensures
            match self {
                DatabaseError::KeyNotExist => r@ == "Key not existed in database."@,
                DatabaseError::SledError(_) => begins(r@, "sled error: "@),
                DatabaseError::BinCodeError(_) => begins(r@, "bincode error: "@),
            },
    {
        match self {
            DatabaseError::KeyNotExist => "Key not existed in database.".to_owned(),
            DatabaseError::SledError(e) => labelled("sled error: ", tree_error_text(e).as_str()),
            DatabaseError::BinCodeError(e) => labelled(
                "bincode error: ",
                codec_error_text(e).as_str(),
            ),
        }
    }
}

impl From<sled::Error> for DatabaseError {
    fn from(err: sled::Error) -> (r: DatabaseError) {
        DatabaseError::SledError(err)
    }
}

impl vstd::std_specs::convert::FromSpecImpl<sled::Error> for DatabaseError {
    open spec fn obeys_from_spec() -> bool {
        true
    }

    open spec fn from_spec(err: sled::Error) -> DatabaseError {
        DatabaseError::SledError(err)
    }
}

impl From<bincode::Error> for DatabaseError {
    fn from(err: bincode::Error) -> (r: DatabaseError) {
        DatabaseError::BinCodeError(err)
    }
}

impl vstd::std_specs::convert::FromSpecImpl<bincode::Error> for DatabaseError {
    open spec fn obeys_from_spec() -> bool {
        true
    }

    open spec fn from_spec(err: bincode::Error) -> DatabaseError {
        DatabaseError::BinCodeError(err)
    }
}

/// What a store holds under a key.
pub enum Lookup {
    /// Nothing.
    Missing,
    /// Bytes that hold no wallpaper.
    Unreadable,
    /// This wallpaper.
    Found(WallpaperView),
}

/// What `records` hold under the file name `key`.
pub open spec fn lookup(records: Map<Seq<u8>, Seq<u8>>, key: Seq<char>) -> Lookup {
    let k = encode_utf8(key);
    if !records.contains_key(k) {
        Lookup::Missing
    } else {
        match record_value(records[k]) {
            Some(item) => Lookup::Found(item),
            None => Lookup::Unreadable,
        }
    }
}

/// `items` are the wallpapers that `records` hold, one for each key, in the
/// ascending order of `keys`, which are all the keys of `records`.
pub open spec fn listed(
    records: Map<Seq<u8>, Seq<u8>>,
    keys: Seq<Seq<u8>>,
    items: Seq<WallpaperView>,
) -> bool {
    &&& keys.len() == items.len()
    &&& ascending(keys)
    &&& forall|i: int|
        0 <= i < keys.len() ==> records.contains_key(#[trigger] keys[i]) && record_value(
            records[keys[i]],
        ) == Some(items[i])
    &&& forall|k: Seq<u8>| records.contains_key(k) ==> keys.contains(k)
}

/// Recording under one file name leaves what is recorded under every
/// other name as it was.
pub proof fn lemma_put_leaves_other_names(
    records: Map<Seq<u8>, Seq<u8>>,
    name: Seq<char>,
    other: Seq<char>,
    bytes: Seq<u8>,
)
    requires
        name != other,
    ensures
        lookup(records.insert(encode_utf8(name), bytes), other) == lookup(records, other),
{
    vstd::utf8::encode_utf8_decode_utf8(name);
    vstd::utf8::encode_utf8_decode_utf8(other);
}

/// No key comes before itself.
pub proof fn lemma_key_order_is_strict(a: Seq<u8>)
    ensures
        !key_below(a, a),
{
}

/// The order of the keys is transitive.
pub proof fn lemma_key_order_is_transitive(a: Seq<u8>, b: Seq<u8>, c: Seq<u8>)
    requires
        key_below(a, b),
        key_below(b, c),
    ensures
        key_below(a, c),
{
    let i = choose|i: int| below_at(a, b, i);
    let j = choose|j: int| below_at(b, c, j);
    if i <= j {
        assert(a.subrange(0, i) =~= b.subrange(0, j).subrange(0, i));
        assert(c.subrange(0, i) =~= c.subrange(0, j).subrange(0, i));
        if i < j {
            assert(b[i] == b.subrange(0, j)[i]);
            assert(c[i] == c.subrange(0, j)[i]);
        }
        assert(below_at(a, c, i));
    } else {
        assert(a.subrange(0, j) =~= a.subrange(0, i).subrange(0, j));
        assert(b.subrange(0, j) =~= b.subrange(0, i).subrange(0, j));
        assert(a[j] == a.subrange(0, i)[j]);
        assert(b[j] == b.subrange(0, i)[j]);
        assert(below_at(a, c, j));
    }
}

/// Keys that ascend and are the same keys are in the same order.
pub proof fn lemma_ascending_keys_are_unique(first: Seq<Seq<u8>>, second: Seq<Seq<u8>>)
    requires
        ascending(first),
        ascending(second),
        forall|k: Seq<u8>| first.contains(k) <==> second.contains(k),
    ensures
        first == second,
    decreases first.len(),
{
    if first.len() == 0 {
        if second.len() > 0 {
            assert(second.contains(second[0]));
        }
        assert(first =~= second);
    } else {
        assert(first.contains(first[0]));
        assert(second.contains(first[0]));
        let j = choose|j: int| 0 <= j < second.len() && second[j] == first[0];
        assert(second.contains(second[0]));
        assert(first.contains(second[0]));
        let i = choose|i: int| 0 <= i < first.len() && first[i] == second[0];
        lemma_key_order_is_strict(first[0]);
        if j > 0 {
            assert(key_below(second[0], second[j]));
            if i > 0 {
                assert(key_below(first[0], first[i]));
                lemma_key_order_is_transitive(first[0], second[0], first[0]);
            }
        }
        assert(first[0] == second[0]);
        let first_rest = first.drop_first();
        let second_rest = second.drop_first();
        assert(ascending(first_rest)) by {
            assert forall|x: int, y: int| 0 <= x < y < first_rest.len() implies key_below(
                #[trigger] first_rest[x],
                #[trigger] first_rest[y],
            ) by {
                assert(key_below(first[x + 1], first[y + 1]));
            }
        }
        assert(ascending(second_rest)) by {
            assert forall|x: int, y: int| 0 <= x < y < second_rest.len() implies key_below(
                #[trigger] second_rest[x],
                #[trigger] second_rest[y],
            ) by {
                assert(key_below(second[x + 1], second[y + 1]));
            }
        }
        assert forall|k: Seq<u8>| first_rest.contains(k) <==> second_rest.contains(k) by {
            if first_rest.contains(k) {
                let x = choose|x: int| 0 <= x < first_rest.len() && first_rest[x] == k;
                assert(key_below(first[0], first[x + 1]));
                assert(first.contains(k));
                let y = choose|y: int| 0 <= y < second.len() && second[y] == k;
                lemma_key_order_is_strict(k);
                assert(second_rest[y - 1] == k);
            }
            if second_rest.contains(k) {
                let x = choose|x: int| 0 <= x < second_rest.len() && second_rest[x] == k;
                assert(key_below(second[0], second[x + 1]));
                assert(second.contains(k));
                let y = choose|y: int| 0 <= y < first.len() && first[y] == k;
                lemma_key_order_is_strict(k);
                assert(first_rest[y - 1] == k);
            }
        }
        lemma_ascending_keys_are_unique(first_rest, second_rest);
        assert(first =~= seq![first[0]] + first_rest);
        assert(second =~= seq![second[0]] + second_rest);
    }
}

/// What a store lists is settled by what it holds: two listings of the same
/// records are the same wallpapers in the same order.
pub proof fn lemma_listing_is_unique(
    records: Map<Seq<u8>, Seq<u8>>,
    keys: Seq<Seq<u8>>,
    items: Seq<WallpaperView>,
    other_keys: Seq<Seq<u8>>,
    other_items: Seq<WallpaperView>,
)
    requires
        listed(records, keys, items),
        listed(records, other_keys, other_items),
    ensures
        keys == other_keys,
        items == other_items,
{
    assert forall|k: Seq<u8>| keys.contains(k) <==> other_keys.contains(k) by {
        if keys.contains(k) {
            let i = choose|i: int| 0 <= i < keys.len() && keys[i] == k;
            assert(records.contains_key(keys[i]));
        }
        if other_keys.contains(k) {
            let i = choose|i: int| 0 <= i < other_keys.len() && other_keys[i] == k;
            assert(records.contains_key(other_keys[i]));
        }
    }
    lemma_ascending_keys_are_unique(keys, other_keys);
    assert forall|i: int| 0 <= i < items.len() implies items[i] == other_items[i] by {
        assert(records.contains_key(keys[i]));
        assert(records.contains_key(other_keys[i]));
    }
    assert(items =~= other_items);
}

/// A store that holds one record lists the wallpaper of that record.
pub proof fn lemma_listing_of_one_record(
    key: Seq<u8>,
    bytes: Seq<u8>,
    keys: Seq<Seq<u8>>,
    items: Seq<WallpaperView>,
)
    requires
        listed(Map::empty().insert(key, bytes), keys, items),
    ensures
        keys == seq![key],
        record_value(bytes) == Some(items[0]),
        items.len() == 1,
{
    let records = Map::<Seq<u8>, Seq<u8>>::empty().insert(key, bytes);
    assert(records.contains_key(key));
    assert(keys.contains(key));
    if keys.len() > 1 {
        assert(records.contains_key(keys[0]));
        assert(records.contains_key(keys[1]));
        assert(key_below(keys[0], keys[1]));
        lemma_key_order_is_strict(key);
    }
    assert(records.contains_key(keys[0]));
    assert(keys =~= seq![key]);
}

/// The wallpaper that a lookup in the tree found: the outcome `found` of the
/// lookup becomes the wallpaper that the bytes hold, or the error that says
/// why there is none.
pub fn record_from(found: Result<Option<Vec<u8>>, sled::Error>) -> (r: Result<
    Wallpaper,
    DatabaseError,
>)
    ensures
        match found {
            Ok(Some(bytes)) => match record_value(bytes@) {
                Some(item) => r matches Ok(w) && w@ == item,
                None => r matches Err(DatabaseError::BinCodeError(_)),
            },
            Ok(None) => r matches Err(DatabaseError::KeyNotExist),
            Err(e) => r matches Err(DatabaseError::SledError(f)) && f == e,
        },
{
    match found {
        Ok(Some(bytes)) => match record_decode(bytes.as_slice()) {
            Ok(item) => Ok(item),
            Err(e) => Err(DatabaseError::BinCodeError(e)),
        },
        Ok(None) => Err(DatabaseError::KeyNotExist),
        Err(e) => Err(DatabaseError::SledError(e)),
    }
}

/// Whether each of `values` holds a wallpaper.
pub open spec fn all_readable(values: Seq<Seq<u8>>) -> bool {
    forall|i: int| 0 <= i < values.len() ==> record_value(#[trigger] values[i]) is Some
}

/// The wallpapers that a walk through the tree found: `values` are the
/// bytes that it passed, in their order, and `failure` is the error that cut
/// it short, if one did. The wallpapers come in the order of their bytes.
/// Bytes that hold no wallpaper are an error before any failure of the walk.
pub fn records_from(values: Vec<Vec<u8>>, failure: Option<sled::Error>) -> (r: Result<
    Vec<Wallpaper>,
    DatabaseError,
>)
    ensures
        match r {
            Ok(items) => {
                &&& failure is None
                &&& items.len() == values.len()
                &&& forall|i: int|
                    0 <= i < items.len() ==> record_value(values[i]@) == Some(
                        #[trigger] items[i]@,
                    )
            },
            Err(DatabaseError::BinCodeError(_)) => !all_readable(values.deep_view()),
            Err(DatabaseError::SledError(e)) => all_readable(values.deep_view()) && failure
                == Some(e),
            Err(DatabaseError::KeyNotExist) => false,
        },
{
    let mut repos: Vec<Wallpaper> = Vec::new();
    let mut i: usize = 0;
    while i < values.len()
        invariant
            i <= values.len(),
            repos.len() == i,
            forall|j: int|
                0 <= j < i ==> record_value(values[j]@) == Some(#[trigger] repos[j]@),
        decreases values.len() - i,
    {
        assert(values.deep_view()[i as int] =~= values[i as int]@);
        match record_decode(values[i].as_slice()) {
            Ok(item) => {
                repos.push(item);
            },
            Err(e) => {
                return Err(DatabaseError::BinCodeError(e));
            },
        }
        i = i + 1;
    }
    assert(all_readable(values.deep_view())) by {
        assert forall|j: int| 0 <= j < values.len() implies record_value(
            #[trigger] values.deep_view()[j],
        ) is Some by {
            assert(values.deep_view()[j] =~= values[j]@);
            assert(record_value(values[j]@) == Some(repos[j]@));
        }
    }
    match failure {
        Some(e) => Err(DatabaseError::SledError(e)),
        None => Ok(repos),
    }
}

/// The record store, with the tree that is kept beside it for later use.
pub struct Database {
    db: sled::Db,
    summary_db: sled::Db,
}

impl View for Database {
    type V = Map<Seq<u8>, Seq<u8>>;

    /// The records: the bytes stored under each key.
    closed spec fn view(&self) -> Map<Seq<u8>, Seq<u8>> {
        tree_records(self.db)
    }
}

impl Database {
    /// What the tree beside the records holds.
    pub closed spec fn reserved(&self) -> Map<Seq<u8>, Seq<u8>> {
        tree_records(self.summary_db)
    }

    /// The directory at which the tree of the records was opened.
    pub closed spec fn place(&self) -> Seq<char> {
        tree_place(self.db)
    }

    /// The directory at which the tree beside the records was opened.
    pub closed spec fn reserved_place(&self) -> Seq<char> {
        tree_place(self.summary_db)
    }

    /// Opens the store kept under the directory `path`: the records in
    /// `wallpaper_db` below it, the second tree in `summary_db`. Both are
    /// created where they are missing. Only the tree can make this fail.
    pub fn new(path: &str) -> (r: Result<Database, DatabaseError>)
        ensures
            match r {
                Ok(store) => {
                    &&& store.place() == joined(path@, "wallpaper_db"@)
                    &&& store.reserved_place() == joined(path@, "summary_db"@)
                },
                Err(e) => e is SledError,
            },
    {
        let db = match tree_open(join_path(path, "wallpaper_db").as_str()) {
            Ok(tree) => tree,
            Err(e) => {
                return Err(DatabaseError::SledError(e));
            },
        };
        match tree_open(join_path(path, "summary_db").as_str()) {
            Ok(summary_db) => Ok(Database { db, summary_db }),
            Err(e) => Err(DatabaseError::SledError(e)),
        }
    }

    /// Records `wallpaper` under `filename`, in place of what was there.
    ///
    /// After a success a lookup of `filename` finds `wallpaper`, field for
    /// field. Where the wallpaper cannot be written as bytes the store is
    /// unchanged; where the tree fails nothing is known of it.
    pub fn save_to_db(&mut self, filename: &str, wallpaper: &Wallpaper) -> (r: Result<
        (),
        DatabaseError,
    >)
        ensures
            final(self).reserved() == old(self).reserved(),
            final(self).place() == old(self).place(),
            final(self).reserved_place() == old(self).reserved_place(),
            match r {
                Ok(_) => final(self)@ == old(self)@.insert(
                    encode_utf8(filename@),
                    record_bytes(wallpaper@),
                ) && lookup(final(self)@, filename@) == Lookup::Found(wallpaper@),
                Err(DatabaseError::BinCodeError(_)) => final(self)@ == old(self)@,
                Err(DatabaseError::SledError(_)) => true,
                Err(DatabaseError::KeyNotExist) => false,
            },
    {
        let bytes = match record_encode(wallpaper) {
            Ok(bytes) => bytes,
            Err(e) => {
                return Err(DatabaseError::BinCodeError(e));
            },
        };
        match tree_insert(&mut self.db, filename, bytes) {
            Ok(_) => Ok(()),
            Err(e) => Err(DatabaseError::SledError(e)),
        }
    }

    /// Looks `key` up.
    ///
    /// The wallpaper returned is the one recorded under `key`;
    /// `KeyNotExist` says that the store holds nothing under it, and
    /// `BinCodeError` that it holds bytes from which no wallpaper can be
    /// read. Where the tree fails nothing is learnt.
    pub fn get_wallpaper_details(&self, key: &str) -> (r: Result<Wallpaper, DatabaseError>)
        ensures
            match r {
                Ok(item) => lookup(self@, key@) == Lookup::Found(item@),
                Err(DatabaseError::KeyNotExist) => lookup(self@, key@) is Missing,
                Err(DatabaseError::BinCodeError(_)) => lookup(self@, key@) is Unreadable,
                Err(DatabaseError::SledError(_)) => true,
            },
    {
        record_from(tree_get(&self.db, key))
    }

    /// Every wallpaper of the store, in the ascending order of the keys.
    ///
    /// `BinCodeError` says that the store holds bytes under some key from
    /// which no wallpaper can be read. Where the tree fails nothing is
    /// learnt.
    pub fn load_from_db(&self) -> (r: Result<Vec<Wallpaper>, DatabaseError>)
        ensures
            match r {
                Ok(items) => exists|keys: Seq<Seq<u8>>| #[trigger]
                    listed(self@, keys, views_of(items@)),
                Err(DatabaseError::BinCodeError(_)) => exists|k: Seq<u8>|
                    self@.contains_key(k) && record_value(#[trigger] self@[k]) is None,
                Err(DatabaseError::SledError(_)) => true,
                Err(DatabaseError::KeyNotExist) => false,
            },
    {
        let (values, failure) = tree_walk(&self.db);
        let ghost keys = choose|keys: Seq<Seq<u8>>| #[trigger]
            walked(self@, keys, values.deep_view(), failure is None);
        let ghost walked_values = values.deep_view();
        let ghost raw = values@;
        let r = records_from(values, failure);
        proof {
            match &r {
                Ok(items) => {
                    assert forall|i: int| 0 <= i < keys.len() implies self@.contains_key(
                        #[trigger] keys[i],
                    ) && record_value(self@[keys[i]]) == Some(views_of(items@)[i]) by {
                        assert(self@[keys[i]] == walked_values[i]);
                        assert(walked_values[i] =~= raw[i]@);
                        assert(record_value(raw[i]@) == Some(items[i]@));
                    }
                    assert(listed(self@, keys, views_of(items@)));
                },
                Err(DatabaseError::BinCodeError(_)) => {
                    let i = choose|i: int|
                        0 <= i < walked_values.len() && !(record_value(
                            #[trigger] walked_values[i],
                        ) is Some);
                    assert(self@.contains_key(keys[i]));
                    assert(record_value(self@[keys[i]]) is None);
                },
                _ => {},
            }
        }
        r
    }
}

} // verus!
