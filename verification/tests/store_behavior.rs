use gemcraft::data::{ClassificationData, DataGem};
use gemcraft::storage::StorageAdapter;
use gemcraft::store::GemStore;

fn gem(description: &str) -> DataGem {
    DataGem {
        classification: None,
        description: description.to_string(),
        json_data: "{}".to_string(),
        derived_from: Vec::new(),
    }
}

#[test]
fn upsert_replaces_instead_of_duplicating() {
    let mut store = GemStore::load(StorageAdapter::new()).unwrap();
    store.upsert("a".to_string(), gem("first")).unwrap();
    store.upsert("a".to_string(), gem("second")).unwrap();
    assert_eq!(store.len(), 1);
    assert_eq!(store.get(&"a".to_string()).unwrap().description, "second");
}

#[test]
fn list_never_contains_duplicate_identifiers() {
    let mut store = GemStore::load(StorageAdapter::new()).unwrap();
    store.upsert("a".to_string(), gem("one")).unwrap();
    store.upsert("b".to_string(), gem("two")).unwrap();
    store.upsert("a".to_string(), gem("three")).unwrap();
    store.upsert("c".to_string(), gem("four")).unwrap();
    store.upsert("b".to_string(), gem("five")).unwrap();
    let entries = store.list();
    for i in 0..entries.len() {
        for j in 0..entries.len() {
            if i != j {
                assert_ne!(entries[i].0, entries[j].0);
            }
        }
    }
    assert_eq!(entries.len(), 3);
}

#[test]
fn upsert_is_mirrored_to_persistence() {
    let mut store = GemStore::load(StorageAdapter::new()).unwrap();
    store.upsert("a".to_string(), gem("kept")).unwrap();
    let records = store.persistence().load_all().unwrap();
    let found = records.iter().find(|(id, _)| id == "a").unwrap();
    assert_eq!(found.1.description, "kept");
    assert_eq!(found.1.json_data, "{}");
}

#[test]
fn delete_is_mirrored_to_persistence() {
    let mut store = GemStore::load(StorageAdapter::new()).unwrap();
    store.upsert("a".to_string(), gem("gone")).unwrap();
    store.delete(&"a".to_string()).unwrap();
    let records = store.persistence().load_all().unwrap();
    assert!(records.iter().all(|(id, _)| id != "a"));
    assert!(store.get(&"a".to_string()).is_none());
}

#[test]
fn delete_of_absent_id_is_a_quiet_no_op() {
    let mut store = GemStore::load(StorageAdapter::new()).unwrap();
    store.upsert("a".to_string(), gem("stays")).unwrap();
    let result = store.delete(&"missing".to_string());
    assert!(result.is_ok());
    assert_eq!(store.len(), 1);
    assert_eq!(store.get(&"a".to_string()).unwrap().description, "stays");
}

#[test]
fn delete_of_absent_id_never_fails_even_with_broken_storage() {
    let mut store = GemStore::load(StorageAdapter::new()).unwrap();
    store.set_storage_failing(true);
    assert!(store.delete(&"missing".to_string()).is_ok());
    assert_eq!(store.len(), 0);
}

#[test]
fn failed_save_leaves_memory_and_storage_consistent() {
    let mut store = GemStore::load(StorageAdapter::new()).unwrap();
    store.upsert("a".to_string(), gem("before")).unwrap();
    store.set_storage_failing(true);
    assert!(store.upsert("b".to_string(), gem("lost")).is_err());
    assert!(store.upsert("a".to_string(), gem("also lost")).is_err());
    assert_eq!(store.len(), 1);
    assert_eq!(store.get(&"a".to_string()).unwrap().description, "before");
    store.set_storage_failing(false);
    let records = store.persistence().load_all().unwrap();
    assert_eq!(records.len(), 1);
    assert_eq!(records[0].1.description, "before");
}

#[test]
fn failed_delete_leaves_the_gem_in_place() {
    let mut store = GemStore::load(StorageAdapter::new()).unwrap();
    store.upsert("a".to_string(), gem("kept")).unwrap();
    store.set_storage_failing(true);
    assert!(store.delete(&"a".to_string()).is_err());
    assert_eq!(store.len(), 1);
    store.set_storage_failing(false);
    assert_eq!(store.persistence().load_all().unwrap().len(), 1);
}

#[test]
fn clear_removes_all_gems_and_records() {
    let mut store = GemStore::load(StorageAdapter::new()).unwrap();
    store.upsert("a".to_string(), gem("one")).unwrap();
    store.upsert("b".to_string(), gem("two")).unwrap();
    store.clear().unwrap();
    assert_eq!(store.len(), 0);
    assert_eq!(store.persistence().load_all().unwrap().len(), 0);
}

#[test]
fn load_restores_persisted_gems() {
    let mut adapter = StorageAdapter::new();
    adapter.save(&"a".to_string(), &gem("saved")).unwrap();
    let classified = DataGem {
        classification: Some(ClassificationData {
            title: "Title".to_string(),
            content_type: "text".to_string(),
            emoji: "\u{2753}".to_string(),
            sensitivity: "low".to_string(),
        }),
        description: "rich".to_string(),
        json_data: "{\"k\":1}".to_string(),
        derived_from: vec!["a".to_string()],
    };
    adapter.save(&"b".to_string(), &classified).unwrap();
    let store = GemStore::load(adapter).unwrap();
    assert_eq!(store.len(), 2);
    assert_eq!(store.get(&"a".to_string()).unwrap().description, "saved");
    let b = store.get(&"b".to_string()).unwrap();
    assert_eq!(b.classification.as_ref().unwrap().title, "Title");
    assert_eq!(b.derived_from, vec!["a".to_string()]);
}

#[test]
fn load_fails_when_the_backing_store_is_broken() {
    let mut adapter = StorageAdapter::new();
    adapter.set_failing(true);
    assert!(GemStore::load(adapter).is_err());
}
