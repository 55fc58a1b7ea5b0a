use gondolin::errors::Error;
use gondolin::store::{Database, Record};

fn record(name: &str, username: &str, secret: &str) -> Record {
    Record { name: name.to_string(), username: username.to_string(), secret: secret.to_string() }
}

#[test]
fn add_then_query_returns_the_record() {
    let mut db = Database::init("/tmp/creds.db".to_string());
    db.add(record("github", "alice", "x")).unwrap();
    let found = db.query(&"github".to_string()).unwrap();
    assert_eq!(found.name, "github");
    assert_eq!(found.username, "alice");
    assert_eq!(found.secret, "x");
}

#[test]
fn query_missing_name_is_none_not_error() {
    let mut db = Database::init("db".to_string());
    db.add(record("github", "alice", "x")).unwrap();
    assert!(db.query(&"gitlab".to_string()).is_none());
}

#[test]
fn add_duplicate_name_fails_and_leaves_collection_unchanged() {
    let mut db = Database::init("db".to_string());
    db.add(record("github", "alice", "x")).unwrap();
    let err = db.add(record("github", "bob", "y")).unwrap_err();
    assert_eq!(err, Error::DuplicateName);
    assert_eq!(db.len(), 1);
    let kept = db.query(&"github".to_string()).unwrap();
    assert_eq!(kept.username, "alice");
    assert_eq!(kept.secret, "x");
}

#[test]
fn remove_missing_name_fails_and_leaves_collection_unchanged() {
    let mut db = Database::init("db".to_string());
    db.add(record("github", "alice", "x")).unwrap();
    let err = db.remove(&"gitlab".to_string()).unwrap_err();
    assert_eq!(err, Error::RecordNotFound);
    assert_eq!(db.len(), 1);
    assert!(db.query(&"github".to_string()).is_some());
}

#[test]
fn remove_present_name_removes_exactly_that_record() {
    let mut db = Database::init("db".to_string());
    db.add(record("github", "alice", "x")).unwrap();
    db.add(record("gitlab", "bob", "y")).unwrap();
    let removed = db.remove(&"github".to_string()).unwrap();
    assert_eq!(removed.name, "github");
    assert_eq!(removed.username, "alice");
    assert_eq!(db.len(), 1);
    assert!(db.query(&"github".to_string()).is_none());
    assert!(db.query(&"gitlab".to_string()).is_some());
}

#[test]
fn records_enumerate_in_insertion_order() {
    let mut db = Database::init("db".to_string());
    db.add(record("a", "ua", "sa")).unwrap();
    db.add(record("b", "ub", "sb")).unwrap();
    db.add(record("c", "uc", "sc")).unwrap();
    assert_eq!(db.len(), 3);
    assert_eq!(db.record_at(0).name, "a");
    assert_eq!(db.record_at(1).name, "b");
    assert_eq!(db.record_at(2).name, "c");
    let path = db.path();
    assert_eq!(path, "db");
}
