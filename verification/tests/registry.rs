use tarkine::records::PersistentQuery;
use tarkine::registry::registry;

fn query(id: u64, text: &str) -> PersistentQuery {
    PersistentQuery::new(id, format!("query {id}"), text.to_string(), 10)
}

#[test]
fn new_registry_is_empty() {
    let (mut writer, reader) = registry(1000);
    assert_eq!(writer.get(1), None);
    assert!(reader.snapshot().is_empty());
}

#[test]
fn inserted_query_is_found_by_id() {
    let (mut writer, _reader) = registry(4);
    writer.insert(query(1, "Darcy"));
    assert_eq!(writer.get(1), Some(query(1, "Darcy")));
    assert_eq!(writer.get(2), None);
}

#[test]
fn insert_under_a_taken_id_replaces() {
    let (mut writer, reader) = registry(4);
    writer.insert(query(1, "Darcy"));
    writer.insert(query(1, "Bingley"));
    assert_eq!(writer.get(1), Some(query(1, "Bingley")));
    assert_eq!(reader.snapshot(), vec![query(1, "Bingley")]);
}

#[test]
fn later_inserts_keep_earlier_queries() {
    let (mut writer, _reader) = registry(0);
    writer.insert(query(1, "Darcy"));
    writer.insert(query(2, "Bingley"));
    writer.insert(query(3, "Bennet"));
    assert_eq!(writer.get(1), Some(query(1, "Darcy")));
    assert_eq!(writer.get(2), Some(query(2, "Bingley")));
    assert_eq!(writer.get(3), Some(query(3, "Bennet")));
}

#[test]
fn fresh_snapshot_shows_every_insert() {
    let (mut writer, reader) = registry(16);
    for id in 0..50 {
        writer.insert(query(id, "text"));
    }
    let mut ids: Vec<u64> = reader.snapshot().iter().map(|q| q.id).collect();
    ids.sort();
    assert_eq!(ids, (0..50).collect::<Vec<u64>>());
}

#[test]
fn snapshot_is_not_changed_by_later_inserts() {
    let (mut writer, reader) = registry(16);
    writer.insert(query(1, "Darcy"));
    let before = reader.snapshot();
    writer.insert(query(2, "Bingley"));
    assert_eq!(before, vec![query(1, "Darcy")]);
    assert_eq!(reader.snapshot().len(), 2);
}
