use frame_decoder::sql::Connection;
use frame_decoder::sql::WriteResult;
use frame_decoder::stats::FieldStatThreadLocal;

#[test]
fn write_result_reports_what_it_was_given() {
    let r = WriteResult::new(Some(5), 3);
    assert_eq!(r.last_insert_id(), Some(5));
    assert_eq!(r.affected_rows(), 3);
    let r = WriteResult::new(None, 0);
    assert_eq!(r.last_insert_id(), None);
    assert_eq!(r.affected_rows(), 0);
}

#[test]
fn connection_describes_its_backend() {
    assert_eq!(Connection::Sqlite.describe(), "Sqlite");
    assert_eq!(Connection::Mysql.describe(), "Mysql");
    let c = Connection::Sqlite.clone();
    assert_eq!(c.describe(), "Sqlite");
}

#[test]
fn stat_cache_generates_once_per_key() {
    let mut cache: FieldStatThreadLocal<u64> = FieldStatThreadLocal::new();
    let a = String::from("requests");
    let b = String::from("errors");
    assert_eq!(*cache.get_or_default(&a, || 7), 7);
    // A second lookup under the same key keeps the cached handle and
    // does not run the generator.
    assert_eq!(*cache.get_or_default(&a, || 9), 7);
    assert_eq!(*cache.get_or_default(&b, || 9), 9);
    assert_eq!(*cache.get_or_default(&a, || 11), 7);
    assert_eq!(*cache.get_or_default(&b, || 11), 9);
}
