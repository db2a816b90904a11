use std::time::{SystemTime, UNIX_EPOCH};

use wallpaper::database::{record_from, records_from, Database, DatabaseError};
use wallpaper::wallhaven::{Thumbs, Wallpaper};

fn sample(id: &str, resolution: &str, file_type: &str, purity: &str) -> Wallpaper {
    Wallpaper {
        id: id.to_string(),
        url: format!("https://wallhaven.cc/w/{}", id),
        short_url: format!("https://whvn.cc/{}", id),
        views: 1234,
        favorites: 56,
        source: "https://example.org/source".to_string(),
        purity: purity.to_string(),
        category: "general".to_string(),
        dimension_x: 3840,
        dimension_y: 2160,
        resolution: resolution.to_string(),
        ratio: "1.78".to_string(),
        file_size: 4_000_123,
        file_type: file_type.to_string(),
        created_at: "2024-01-02 03:04:05".to_string(),
        colors: vec!["#000000".to_string(), "#424153".to_string(), "#abbcda".to_string()],
        path: format!("https://w.wallhaven.cc/full/{}/wallhaven-{}.jpg", &id[..2], id),
        thumbs: Thumbs {
            large: format!("https://th.wallhaven.cc/lg/{}.jpg", id),
            original: format!("https://th.wallhaven.cc/orig/{}.jpg", id),
            small: format!("https://th.wallhaven.cc/small/{}.jpg", id),
        },
    }
}

fn fresh_store(tag: &str) -> Database {
    let nanos = SystemTime::now().duration_since(UNIX_EPOCH).unwrap().as_nanos();
    Database::new(&format!("/tmp/wallpaper-store-test-{}-{}", tag, nanos)).unwrap()
}

#[test]
fn test_gitdatabase() {
    let mut db = fresh_store("gitdatabase");

    let wallpaper = sample("aa1111", "1920x1080", "image/jpeg", "sfw");
    let file_name = format!(
        "wallhaven-{}-{}.{}",
        wallpaper.id,
        wallpaper.resolution,
        wallpaper.file_type.split('/').last().unwrap()
    );

    db.save_to_db(&file_name, &wallpaper).unwrap();

    let wallpapers = db.load_from_db().unwrap();
    assert_eq!(wallpapers.len(), 1, "1::Expected 1 repo, but found {}", wallpapers.len());
    assert_eq!(wallpapers[0], wallpaper, "1::Saved repo does not match loaded repo");

    let wallpaper = sample("bb2222", "2560x1440", "image/png", "sketchy");
    db.save_to_db(&file_name, &wallpaper).unwrap();

    let wallpapers = db.load_from_db().unwrap();
    assert_eq!(wallpapers.len(), 1, "2::Expected 1 repo, but found {}", wallpapers.len());
    assert_eq!(wallpapers[0], wallpaper, "2::Saved repo does not match loaded repo");

    let wallpaper = sample("cc3333", "3840x2160", "image/png", "nsfw");
    let file_name = format!(
        "wallhaven-{}-{}.{}",
        wallpaper.id,
        wallpaper.resolution,
        wallpaper.file_type.split('/').last().unwrap()
    );

    db.save_to_db(&file_name, &wallpaper).unwrap();

    let wallpapers = db.load_from_db().unwrap();
    assert_eq!(wallpapers.len(), 2, "3::Expected 2 wallpapers, but found {}", wallpapers.len());
    assert_eq!(wallpapers[1], wallpaper, "3::Saved repo does not match loaded repo");
}

#[test]
fn get_returns_what_was_put() {
    let mut db = fresh_store("roundtrip");
    let wallpaper = sample("zz9999", "1920x1200", "image/jpeg", "sfw");
    db.save_to_db("wallhaven-zz9999-1920x1200.jpeg", &wallpaper).unwrap();
    let loaded = db.get_wallpaper_details("wallhaven-zz9999-1920x1200.jpeg").unwrap();
    assert_eq!(loaded, wallpaper);
    assert_eq!(loaded.colors, vec!["#000000", "#424153", "#abbcda"]);
    assert_eq!(loaded.thumbs.small, "https://th.wallhaven.cc/small/zz9999.jpg");
}

#[test]
fn missing_key_is_reported_as_such() {
    let db = fresh_store("missing");
    match db.get_wallpaper_details("wallhaven-none-1x1.png") {
        Err(DatabaseError::KeyNotExist) => {}
        other => panic!("expected KeyNotExist, found {:?}", other),
    }
}

#[test]
fn put_overwrites_what_was_under_the_key() {
    let mut db = fresh_store("overwrite");
    let first = sample("aa0001", "1920x1080", "image/jpeg", "sfw");
    let second = sample("aa0002", "1280x720", "image/png", "nsfw");
    db.save_to_db("key", &first).unwrap();
    db.save_to_db("key", &second).unwrap();
    assert_eq!(db.get_wallpaper_details("key").unwrap(), second);
    assert_eq!(db.load_from_db().unwrap(), vec![second]);
}

#[test]
fn put_leaves_other_keys_alone() {
    let mut db = fresh_store("others");
    let first = sample("aa0001", "1920x1080", "image/jpeg", "sfw");
    let second = sample("aa0002", "1280x720", "image/png", "nsfw");
    db.save_to_db("one", &first).unwrap();
    db.save_to_db("two", &second).unwrap();
    assert_eq!(db.get_wallpaper_details("one").unwrap(), first);
    assert_eq!(db.get_wallpaper_details("two").unwrap(), second);
}

#[test]
fn empty_store_lists_nothing() {
    let db = fresh_store("empty");
    assert_eq!(db.load_from_db().unwrap(), Vec::<Wallpaper>::new());
}

#[test]
fn list_comes_in_the_order_of_the_keys() {
    let mut db = fresh_store("order");
    let c = sample("cc", "1x1", "image/png", "sfw");
    let a = sample("aa", "1x1", "image/png", "sfw");
    let b = sample("bb", "1x1", "image/png", "sfw");
    let ab = sample("ab", "1x1", "image/png", "sfw");
    db.save_to_db("wallhaven-cc", &c).unwrap();
    db.save_to_db("wallhaven-aa", &a).unwrap();
    db.save_to_db("wallhaven-bb", &b).unwrap();
    db.save_to_db("wallhaven-a", &ab).unwrap();
    assert_eq!(db.load_from_db().unwrap(), vec![ab, a, b, c]);
}

#[test]
fn keys_are_taken_byte_for_byte() {
    let mut db = fresh_store("bytes");
    let w = sample("aa", "1x1", "image/png", "sfw");
    db.save_to_db("clé-é", &w).unwrap();
    assert_eq!(db.get_wallpaper_details("clé-é").unwrap(), w);
    assert!(matches!(db.get_wallpaper_details("cle-e"), Err(DatabaseError::KeyNotExist)));
    assert!(matches!(db.get_wallpaper_details(""), Err(DatabaseError::KeyNotExist)));
}

#[test]
fn round_trip_keeps_every_field() {
    let mut db = fresh_store("fields");
    let w = Wallpaper {
        id: "é😀".to_string(),
        url: String::new(),
        short_url: "s".to_string(),
        views: u32::MAX,
        favorites: 0,
        source: "src".to_string(),
        purity: "sketchy".to_string(),
        category: "people".to_string(),
        dimension_x: 1,
        dimension_y: 2,
        resolution: "1x2".to_string(),
        ratio: "0.5".to_string(),
        file_size: 3,
        file_type: "image/webp".to_string(),
        created_at: "now".to_string(),
        colors: vec![],
        path: "p".to_string(),
        thumbs: Thumbs { large: "L".to_string(), original: "O".to_string(), small: "S".to_string() },
    };
    db.save_to_db("k", &w).unwrap();
    let back = db.get_wallpaper_details("k").unwrap();
    assert_eq!(back, w);
    assert_eq!(back.views, u32::MAX);
    assert_eq!(back.colors.len(), 0);
    assert_eq!(back.thumbs, w.thumbs);
}

#[test]
fn records_are_written_as_bincode_writes_them() {
    let path = format!(
        "/tmp/wallpaper-store-test-format-{}",
        SystemTime::now().duration_since(UNIX_EPOCH).unwrap().as_nanos()
    );
    let w = sample("aa", "1x1", "image/png", "sfw");
    {
        let mut db = Database::new(&path).unwrap();
        db.save_to_db("k", &w).unwrap();
    }
    let tree = sled::open(format!("{}/wallpaper_db", path)).unwrap();
    let bytes = tree.get("k").unwrap().unwrap();
    // id: length as u64, little endian, then the text
    assert_eq!(&bytes[..8], &2u64.to_le_bytes());
    assert_eq!(&bytes[8..10], b"aa");
    let url = "https://wallhaven.cc/w/aa";
    assert_eq!(&bytes[10..18], &(url.len() as u64).to_le_bytes());
    assert_eq!(&bytes[18..18 + url.len()], url.as_bytes());
    // the last field is the small thumbnail
    let small = "https://th.wallhaven.cc/small/aa.jpg";
    assert_eq!(&bytes[bytes.len() - small.len()..], small.as_bytes());
}

#[test]
fn store_survives_reopening() {
    let path = format!(
        "/tmp/wallpaper-store-test-reopen-{}",
        SystemTime::now().duration_since(UNIX_EPOCH).unwrap().as_nanos()
    );
    let w = sample("aa", "1x1", "image/png", "sfw");
    {
        let mut db = Database::new(&path).unwrap();
        db.save_to_db("k", &w).unwrap();
    }
    let db = Database::new(&path).unwrap();
    assert_eq!(db.get_wallpaper_details("k").unwrap(), w);
}

#[test]
fn unreadable_record_is_a_codec_error() {
    let path = format!(
        "/tmp/wallpaper-store-test-garbage-{}",
        SystemTime::now().duration_since(UNIX_EPOCH).unwrap().as_nanos()
    );
    {
        let tree = sled::open(format!("{}/wallpaper_db", path)).unwrap();
        tree.insert("bad", vec![1u8, 2, 3]).unwrap();
        tree.flush().unwrap();
    }
    let db = Database::new(&path).unwrap();
    assert!(matches!(db.get_wallpaper_details("bad"), Err(DatabaseError::BinCodeError(_))));
    assert!(matches!(db.load_from_db(), Err(DatabaseError::BinCodeError(_))));
}

#[test]
fn record_from_tells_the_three_failures_apart() {
    assert!(matches!(record_from(Ok(None)), Err(DatabaseError::KeyNotExist)));
    assert!(matches!(
        record_from(Ok(Some(vec![0xff; 5]))),
        Err(DatabaseError::BinCodeError(_))
    ));
    assert!(matches!(record_from(Ok(Some(vec![]))), Err(DatabaseError::BinCodeError(_))));
    let failure = sled::Error::Unsupported("no".to_string());
    match record_from(Err(failure.clone())) {
        Err(DatabaseError::SledError(e)) => assert_eq!(e, failure),
        other => panic!("expected the tree's error, found {:?}", other),
    }
}

#[test]
fn database_errors_in_words() {
    assert_eq!(DatabaseError::KeyNotExist.message(), "Key not existed in database.");
    let sled_error = sled::Error::Unsupported("nope".to_string());
    assert_eq!(
        DatabaseError::SledError(sled_error.clone()).message(),
        format!("sled error: {}", sled_error)
    );
    let codec = match record_from(Ok(Some(vec![1, 2, 3]))) {
        Err(DatabaseError::BinCodeError(e)) => e,
        other => panic!("expected a codec error, found {:?}", other),
    };
    let text = format!("bincode error: {}", codec);
    assert_eq!(DatabaseError::BinCodeError(codec).message(), text);
}

#[test]
fn database_errors_from_their_sources() {
    let sled_error = sled::Error::Unsupported("nope".to_string());
    assert!(matches!(DatabaseError::from(sled_error), DatabaseError::SledError(_)));
    let codec: bincode::Error = Box::new(bincode::ErrorKind::SizeLimit);
    assert!(matches!(DatabaseError::from(codec), DatabaseError::BinCodeError(_)));
}

#[test]
fn store_in_use_cannot_be_opened_again() {
    let path = format!(
        "/tmp/wallpaper-store-test-locked-{}",
        SystemTime::now().duration_since(UNIX_EPOCH).unwrap().as_nanos()
    );
    let held = Database::new(&path).unwrap();
    match Database::new(&path) {
        Err(DatabaseError::SledError(_)) => {}
        Err(other) => panic!("expected the tree's error, found {:?}", other),
        Ok(_) => panic!("the store was opened twice"),
    }
    assert_eq!(held.load_from_db().unwrap().len(), 0);
}

#[test]
fn store_is_laid_out_in_two_trees() {
    let path = format!(
        "/tmp/wallpaper-store-test-layout-{}",
        SystemTime::now().duration_since(UNIX_EPOCH).unwrap().as_nanos()
    );
    drop(Database::new(&path).unwrap());
    assert!(std::path::Path::new(&format!("{}/wallpaper_db", path)).is_dir());
    assert!(std::path::Path::new(&format!("{}/summary_db", path)).is_dir());
}

#[test]
fn record_is_the_fields_in_order() {
    let path = format!(
        "/tmp/wallpaper-store-test-layout-bytes-{}",
        SystemTime::now().duration_since(UNIX_EPOCH).unwrap().as_nanos()
    );
    let w = sample("aa", "1x1", "image/png", "sfw");
    {
        let mut db = Database::new(&path).unwrap();
        db.save_to_db("k", &w).unwrap();
    }
    fn text(out: &mut Vec<u8>, s: &str) {
        out.extend_from_slice(&(s.len() as u64).to_le_bytes());
        out.extend_from_slice(s.as_bytes());
    }
    fn number(out: &mut Vec<u8>, n: u32) {
        out.extend_from_slice(&n.to_le_bytes());
    }
    let mut expected = Vec::new();
    text(&mut expected, &w.id);
    text(&mut expected, &w.url);
    text(&mut expected, &w.short_url);
    number(&mut expected, w.views);
    number(&mut expected, w.favorites);
    text(&mut expected, &w.source);
    text(&mut expected, &w.purity);
    text(&mut expected, &w.category);
    number(&mut expected, w.dimension_x);
    number(&mut expected, w.dimension_y);
    text(&mut expected, &w.resolution);
    text(&mut expected, &w.ratio);
    number(&mut expected, w.file_size);
    text(&mut expected, &w.file_type);
    text(&mut expected, &w.created_at);
    expected.extend_from_slice(&(w.colors.len() as u64).to_le_bytes());
    for color in &w.colors {
        text(&mut expected, color);
    }
    text(&mut expected, &w.path);
    text(&mut expected, &w.thumbs.large);
    text(&mut expected, &w.thumbs.original);
    text(&mut expected, &w.thumbs.small);

    let tree = sled::open(format!("{}/wallpaper_db", path)).unwrap();
    assert_eq!(tree.get("k").unwrap().unwrap().to_vec(), expected);
}

fn stored_bytes(w: &Wallpaper) -> Vec<u8> {
    let path = format!(
        "/tmp/wallpaper-store-test-bytes-{}",
        SystemTime::now().duration_since(UNIX_EPOCH).unwrap().as_nanos()
    );
    {
        let mut db = Database::new(&path).unwrap();
        db.save_to_db("k", w).unwrap();
    }
    let tree = sled::open(format!("{}/wallpaper_db", path)).unwrap();
    tree.get("k").unwrap().unwrap().to_vec()
}

#[test]
fn record_from_reads_what_was_written() {
    let w = sample("aa", "1x1", "image/png", "sfw");
    assert_eq!(record_from(Ok(Some(stored_bytes(&w)))).unwrap(), w);
}

#[test]
fn record_from_lets_bytes_follow_a_record() {
    let w = sample("aa", "1x1", "image/png", "sfw");
    let mut bytes = stored_bytes(&w);
    bytes.extend_from_slice(&[1, 2, 3]);
    assert_eq!(record_from(Ok(Some(bytes))).unwrap(), w);
}

#[test]
fn record_from_refuses_a_record_cut_short() {
    let w = sample("aa", "1x1", "image/png", "sfw");
    let mut bytes = stored_bytes(&w);
    bytes.pop();
    assert!(matches!(record_from(Ok(Some(bytes))), Err(DatabaseError::BinCodeError(_))));
}

#[test]
fn records_from_keeps_the_order_of_the_walk() {
    let a = sample("aa", "1x1", "image/png", "sfw");
    let b = sample("bb", "2x2", "image/jpeg", "nsfw");
    let values = vec![stored_bytes(&b), stored_bytes(&a), stored_bytes(&b)];
    assert_eq!(records_from(values, None).unwrap(), vec![b.clone(), a, b]);
    assert_eq!(records_from(vec![], None).unwrap(), Vec::<Wallpaper>::new());
}

#[test]
fn records_from_reports_unreadable_bytes_before_a_failed_walk() {
    let a = sample("aa", "1x1", "image/png", "sfw");
    let failure = sled::Error::Unsupported("closed".to_string());
    assert!(matches!(
        records_from(vec![stored_bytes(&a), vec![1, 2]], None),
        Err(DatabaseError::BinCodeError(_))
    ));
    assert!(matches!(
        records_from(vec![stored_bytes(&a), vec![1, 2]], Some(failure.clone())),
        Err(DatabaseError::BinCodeError(_))
    ));
    match records_from(vec![stored_bytes(&a)], Some(failure.clone())) {
        Err(DatabaseError::SledError(e)) => assert_eq!(e, failure),
        other => panic!("expected the tree's error, found {:?}", other),
    }
    match records_from(vec![], Some(failure.clone())) {
        Err(DatabaseError::SledError(e)) => assert_eq!(e, failure),
        other => panic!("expected the tree's error, found {:?}", other),
    }
}

#[test]
fn stores_at_different_paths_are_apart() {
    let nanos = SystemTime::now().duration_since(UNIX_EPOCH).unwrap().as_nanos();
    let first = format!("/tmp/wallpaper-store-test-apart-a-{}", nanos);
    let second = format!("/tmp/wallpaper-store-test-apart-b-{}/", nanos);
    let w = sample("aa", "1x1", "image/png", "sfw");
    let mut a = Database::new(&first).unwrap();
    let b = Database::new(&second).unwrap();
    a.save_to_db("k", &w).unwrap();
    assert_eq!(a.get_wallpaper_details("k").unwrap(), w);
    assert!(matches!(b.get_wallpaper_details("k"), Err(DatabaseError::KeyNotExist)));
    drop(a);
    drop(b);
    // each lies below the path it was opened with
    let tree = sled::open(format!("{}/wallpaper_db", first)).unwrap();
    assert!(tree.get("k").unwrap().is_some());
    let other = sled::open(format!("{}wallpaper_db", second)).unwrap();
    assert!(other.get("k").unwrap().is_none());
}
