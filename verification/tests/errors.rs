use wallpaper::database::DatabaseError;
use wallpaper::error::MyError;

#[test]
fn errors_in_words() {
    assert_eq!(
        MyError::DatabaseError("Key not existed in database.".to_string()).message(),
        "Database error: Key not existed in database."
    );
    assert_eq!(MyError::JsonError("EOF".to_string()).message(), "JSON error: EOF");
    let io = std::io::Error::new(std::io::ErrorKind::NotFound, "no such directory");
    assert_eq!(MyError::Io(io).message(), "IO error: no such directory");
}

#[test]
fn io_error_becomes_io() {
    let io = std::io::Error::new(std::io::ErrorKind::NotFound, "gone");
    match MyError::from(io) {
        MyError::Io(e) => assert_eq!(e.kind(), std::io::ErrorKind::NotFound),
        other => panic!("expected Io, found {:?}", other),
    }
}

#[test]
fn json_error_becomes_its_text() {
    let error = serde_json::from_str::<serde_json::Value>("{").unwrap_err();
    let text = error.to_string();
    match MyError::from(error) {
        MyError::JsonError(detail) => assert_eq!(detail, text),
        other => panic!("expected JsonError, found {:?}", other),
    }
}

#[test]
fn database_error_becomes_its_text() {
    match MyError::from(DatabaseError::KeyNotExist) {
        MyError::DatabaseError(detail) => assert_eq!(detail, "Key not existed in database."),
        other => panic!("expected DatabaseError, found {:?}", other),
    }
    let failure = sled::Error::Unsupported("read only".to_string());
    let text = format!("sled error: {}", failure);
    match MyError::from(DatabaseError::SledError(failure)) {
        MyError::DatabaseError(detail) => assert_eq!(detail, text),
        other => panic!("expected DatabaseError, found {:?}", other),
    }
    let codec: bincode::Error = Box::new(bincode::ErrorKind::SizeLimit);
    let text = format!("bincode error: {}", codec);
    match MyError::from(DatabaseError::BinCodeError(codec)) {
        MyError::DatabaseError(detail) => assert_eq!(detail, text),
        other => panic!("expected DatabaseError, found {:?}", other),
    }
}

#[test]
fn request_error_becomes_reqwest() {
    let error = reqwest::Client::new().get("not an address").build().unwrap_err();
    let text = format!("Reqwest error: {}", error);
    let wrapped = MyError::from(error);
    assert!(matches!(wrapped, MyError::Reqwest(_)));
    assert_eq!(wrapped.message(), text);
}

#[test]
fn io_error_of_a_kind_shows_the_kind() {
    let error = std::io::Error::from(std::io::ErrorKind::PermissionDenied);
    assert_eq!(MyError::from(error).message(), "IO error: permission denied");
}
