use std::time::{SystemTime, UNIX_EPOCH};

use wallpaper::database::{Database, DatabaseError};
use wallpaper::placement::{
    consider, found_on_disk, is_recorded, probes, screen, target_path, Outcome,
};
use wallpaper::wallhaven::{Thumbs, Wallpaper};

fn item(id: &str, purity: &str) -> Wallpaper {
    Wallpaper {
        id: id.to_string(),
        url: format!("https://wallhaven.cc/w/{}", id),
        short_url: format!("https://whvn.cc/{}", id),
        views: 10,
        favorites: 2,
        source: String::new(),
        purity: purity.to_string(),
        category: "general".to_string(),
        dimension_x: 1920,
        dimension_y: 1080,
        resolution: "1920x1080".to_string(),
        ratio: "1.78".to_string(),
        file_size: 123456,
        file_type: "image/png".to_string(),
        created_at: "2023-11-05 10:00:00".to_string(),
        colors: vec!["#ffffff".to_string(), "#000000".to_string()],
        path: format!("https://w.wallhaven.cc/full/xx/wallhaven-{}.png", id),
        thumbs: Thumbs {
            large: "l".to_string(),
            original: "o".to_string(),
            small: "s".to_string(),
        },
    }
}

fn store(tag: &str) -> Database {
    let nanos = SystemTime::now().duration_since(UNIX_EPOCH).unwrap().as_nanos();
    Database::new(&format!("/tmp/wallpaper-placement-test-{}-{}", tag, nanos)).unwrap()
}

#[test]
fn sfw_goes_to_the_root() {
    let w = item("abc123", "sfw");
    assert_eq!(
        target_path("/home/me/Pictures", &w),
        "/home/me/Pictures/wallhaven-abc123-1920x1080.png"
    );
}

#[test]
fn anything_else_goes_below_nsfw() {
    assert_eq!(
        target_path("/home/me/Pictures", &item("abc123", "nsfw")),
        "/home/me/Pictures/nsfw/wallhaven-abc123-1920x1080.png"
    );
    assert_eq!(
        target_path("/home/me/Pictures/", &item("abc123", "sketchy")),
        "/home/me/Pictures/nsfw/wallhaven-abc123-1920x1080.png"
    );
    assert_eq!(
        target_path("walls", &item("abc123", "")),
        "walls/nsfw/wallhaven-abc123-1920x1080.png"
    );
}

#[test]
fn probes_name_the_file_in_every_folder_and_then_the_target() {
    let folders = vec!["/p/archive".to_string(), "/p/nsfw".to_string(), "/p/old/".to_string()];
    let w = item("abc123", "nsfw");
    assert_eq!(
        probes("/p", &folders, &w),
        vec![
            "/p/archive/wallhaven-abc123-1920x1080.png",
            "/p/nsfw/wallhaven-abc123-1920x1080.png",
            "/p/old/wallhaven-abc123-1920x1080.png",
            "/p/nsfw/wallhaven-abc123-1920x1080.png",
        ]
    );
    assert_eq!(
        probes("/p", &vec![], &item("abc123", "sfw")),
        vec!["/p/wallhaven-abc123-1920x1080.png"]
    );
}

#[test]
fn found_on_disk_wants_one_hit() {
    assert!(!found_on_disk(&vec![]));
    assert!(!found_on_disk(&vec![false, false, false]));
    assert!(found_on_disk(&vec![false, false, true]));
    assert!(found_on_disk(&vec![true]));
}

#[test]
fn recorded_wallpaper_is_left_alone() {
    let w = item("abc123", "sfw");
    assert_eq!(consider("/p", &w, true, &vec![false, false]), Outcome::AlreadyRecorded);
    assert_eq!(consider("/p", &w, true, &vec![true]), Outcome::AlreadyRecorded);
    assert_eq!(consider("/p", &w, true, &vec![]), Outcome::AlreadyRecorded);
}

#[test]
fn file_in_any_side_folder_stops_the_download() {
    let w = item("abc123", "sfw");
    assert_eq!(consider("/p", &w, false, &vec![true, false, false]), Outcome::AlreadyOnDisk);
    assert_eq!(consider("/p", &w, false, &vec![false, true, false]), Outcome::AlreadyOnDisk);
    assert_eq!(consider("/p", &w, false, &vec![false, false, true]), Outcome::AlreadyOnDisk);
}

#[test]
fn new_wallpaper_is_accepted_for_its_path() {
    assert_eq!(
        consider("/p", &item("abc123", "sfw"), false, &vec![false, false]),
        Outcome::Accepted("/p/wallhaven-abc123-1920x1080.png".to_string())
    );
    assert_eq!(
        consider("/p", &item("abc123", "nsfw"), false, &vec![]),
        Outcome::Accepted("/p/nsfw/wallhaven-abc123-1920x1080.png".to_string())
    );
}

#[test]
fn screen_records_a_new_wallpaper_once() {
    let mut db = store("screen");
    let w = item("abc123", "sfw");
    assert_eq!(screen(&mut db, &w).unwrap(), false);
    assert_eq!(db.get_wallpaper_details("wallhaven-abc123-1920x1080.png").unwrap(), w);
    assert_eq!(screen(&mut db, &w).unwrap(), true);
    assert_eq!(db.load_from_db().unwrap().len(), 1);
}

#[test]
fn screen_goes_by_the_file_name_alone() {
    let mut db = store("screen-name");
    let first = item("abc123", "sfw");
    let mut second = item("abc123", "nsfw");
    second.thumbs.small = "other".to_string();
    assert_eq!(screen(&mut db, &first).unwrap(), false);
    assert_eq!(screen(&mut db, &second).unwrap(), true);
    // the record is still the first one
    assert_eq!(db.get_wallpaper_details("wallhaven-abc123-1920x1080.png").unwrap(), first);
}

#[test]
fn screen_surfaces_an_unreadable_record() {
    let nanos = SystemTime::now().duration_since(UNIX_EPOCH).unwrap().as_nanos();
    let path = format!("/tmp/wallpaper-placement-test-unreadable-{}", nanos);
    {
        let tree = sled::open(format!("{}/wallpaper_db", path)).unwrap();
        tree.insert("wallhaven-abc123-1920x1080.png", vec![9u8; 3]).unwrap();
        tree.flush().unwrap();
    }
    let mut db = Database::new(&path).unwrap();
    let w = item("abc123", "sfw");
    assert!(matches!(screen(&mut db, &w), Err(DatabaseError::BinCodeError(_))));
    // nothing was written over it
    assert!(matches!(
        db.get_wallpaper_details("wallhaven-abc123-1920x1080.png"),
        Err(DatabaseError::BinCodeError(_))
    ));
}

#[test]
fn only_a_missing_record_makes_a_wallpaper_new() {
    assert!(matches!(is_recorded(Ok(item("abc123", "sfw"))), Ok(true)));
    assert!(matches!(is_recorded(Err(DatabaseError::KeyNotExist)), Ok(false)));
    let failure = sled::Error::Unsupported("closed".to_string());
    match is_recorded(Err(DatabaseError::SledError(failure.clone()))) {
        Err(DatabaseError::SledError(e)) => assert_eq!(e, failure),
        other => panic!("expected the tree's error, found {:?}", other),
    }
    let codec: bincode::Error = Box::new(bincode::ErrorKind::SizeLimit);
    assert!(matches!(
        is_recorded(Err(DatabaseError::BinCodeError(codec))),
        Err(DatabaseError::BinCodeError(_))
    ));
}
