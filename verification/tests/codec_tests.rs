use gondolin::config::Config;
use gondolin::errors::Error;
use gondolin::store::{Database, Record};

fn record(name: &str, username: &str, secret: &str) -> Record {
    Record { name: name.to_string(), username: username.to_string(), secret: secret.to_string() }
}

fn field_bytes(s: &str) -> Vec<u8> {
    let mut out = (s.len() as u64).to_le_bytes().to_vec();
    out.extend_from_slice(s.as_bytes());
    out
}

#[test]
fn empty_database_encodes_to_a_zero_count() {
    let db = Database::init("db".to_string());
    assert_eq!(db.to_bytes(), vec![0u8; 8]);
}

#[test]
fn one_record_encodes_to_the_exact_expected_bytes() {
    let mut db = Database::init("db".to_string());
    db.add(record("a", "b", "c")).unwrap();
    let mut expected = 1u64.to_le_bytes().to_vec();
    expected.extend_from_slice(&field_bytes("a"));
    expected.extend_from_slice(&field_bytes("b"));
    expected.extend_from_slice(&field_bytes("c"));
    assert_eq!(db.to_bytes(), expected);
}

#[test]
fn flush_then_open_reproduces_the_collection() {
    let mut db = Database::init("first.db".to_string());
    db.add(record("github", "alice", "x")).unwrap();
    db.add(record("gitlab", "bob", "hünter2")).unwrap();
    let image = db.to_bytes();
    let reopened = Database::open("first.db".to_string(), &image).unwrap();
    assert_eq!(reopened.len(), 2);
    let a = reopened.query(&"github".to_string()).unwrap();
    assert_eq!(a.username, "alice");
    assert_eq!(a.secret, "x");
    let b = reopened.query(&"gitlab".to_string()).unwrap();
    assert_eq!(b.username, "bob");
    assert_eq!(b.secret, "hünter2");
}

#[test]
fn query_in_a_subsequent_process_sees_the_stored_record() {
    // One run adds the record and flushes; a later run opens the flushed
    // image and queries by name.
    let mut first_run = Database::init("creds.db".to_string());
    first_run.add(record("github", "alice", "x")).unwrap();
    let on_disk = first_run.to_bytes();

    let second_run = Database::open("creds.db".to_string(), &on_disk).unwrap();
    let found = second_run.query(&"github".to_string()).unwrap();
    assert_eq!(found.username, "alice");
    assert_eq!(found.secret, "x");
}

#[test]
fn truncated_image_is_corrupt() {
    let mut db = Database::init("db".to_string());
    db.add(record("github", "alice", "x")).unwrap();
    let mut image = db.to_bytes();
    image.pop();
    assert_eq!(Database::open("db".to_string(), &image).unwrap_err(), Error::DatabaseCorrupt);
    let empty: Vec<u8> = Vec::new();
    assert_eq!(Database::open("db".to_string(), &empty).unwrap_err(), Error::DatabaseCorrupt);
}

#[test]
fn trailing_bytes_make_an_image_corrupt() {
    let db = Database::init("db".to_string());
    let mut image = db.to_bytes();
    image.push(0);
    assert_eq!(Database::open("db".to_string(), &image).unwrap_err(), Error::DatabaseCorrupt);
}

#[test]
fn repeated_name_in_an_image_is_corrupt() {
    let mut image = 2u64.to_le_bytes().to_vec();
    for _ in 0..2 {
        image.extend_from_slice(&field_bytes("github"));
        image.extend_from_slice(&field_bytes("alice"));
        image.extend_from_slice(&field_bytes("x"));
    }
    assert_eq!(Database::open("db".to_string(), &image).unwrap_err(), Error::DatabaseCorrupt);
}

#[test]
fn non_utf8_field_is_corrupt() {
    let mut image = 1u64.to_le_bytes().to_vec();
    image.extend_from_slice(&1u64.to_le_bytes());
    image.push(0xff);
    image.extend_from_slice(&field_bytes("alice"));
    image.extend_from_slice(&field_bytes("x"));
    assert_eq!(Database::open("db".to_string(), &image).unwrap_err(), Error::DatabaseCorrupt);
}

#[test]
fn config_round_trips_and_references_the_database_path() {
    let config = Config::new("/data/gondolin.db".to_string(), 8080);
    let image = config.to_bytes();
    let reopened = Config::from_bytes(&image).unwrap();
    assert_eq!(reopened.path, "/data/gondolin.db");
    assert_eq!(reopened.port, 8080);
}

#[test]
fn config_with_trailing_bytes_is_corrupt() {
    let config = Config::new("/data/gondolin.db".to_string(), 8080);
    let mut image = config.to_bytes();
    image.push(0);
    assert_eq!(Config::from_bytes(&image).unwrap_err(), Error::ConfigCorrupt);
    let empty: Vec<u8> = Vec::new();
    assert_eq!(Config::from_bytes(&empty).unwrap_err(), Error::ConfigCorrupt);
}
