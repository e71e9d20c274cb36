use gemcraft::data::{ClassificationData, DataGem};
use gemcraft::session::{CombineOutcome, MicroAppIdea, Session};
use gemcraft::storage::StorageAdapter;

fn gem(description: &str) -> DataGem {
    DataGem {
        classification: None,
        description: description.to_string(),
        json_data: "{}".to_string(),
        derived_from: Vec::new(),
    }
}

fn session() -> Session {
    Session::new(StorageAdapter::new()).unwrap()
}

#[test]
fn add_gem_assigns_a_fresh_uuid_identifier() {
    let mut s = session();
    let first = s.add_gem(gem("one")).unwrap();
    let second = s.add_gem(gem("two")).unwrap();
    assert_eq!(first.len(), 36);
    assert_eq!(second.len(), 36);
    assert_ne!(first, second);
    assert_eq!(s.store.len(), 2);
    assert_eq!(s.store.get(&first).unwrap().description, "one");
}

#[test]
fn classification_round_trip_returns_exactly_what_was_written() {
    let mut s = session();
    let mut authored = gem("draft");
    authored.derived_from = vec!["origin".to_string()];
    s.store.upsert("a".to_string(), authored).unwrap();
    let classification = ClassificationData {
        title: "Recipe".to_string(),
        content_type: "food".to_string(),
        emoji: "\u{1F372}".to_string(),
        sensitivity: "public".to_string(),
    };
    let changed = s
        .classify(
            &"a".to_string(),
            classification,
            "soup notes".to_string(),
            "{\"kind\":\"soup\"}".to_string(),
        )
        .unwrap();
    assert!(changed);
    let read_back = s.store.get(&"a".to_string()).unwrap();
    let c = read_back.classification.as_ref().unwrap();
    assert_eq!(c.title, "Recipe");
    assert_eq!(c.content_type, "food");
    assert_eq!(c.emoji, "\u{1F372}");
    assert_eq!(c.sensitivity, "public");
    assert_eq!(read_back.description, "soup notes");
    assert_eq!(read_back.json_data, "{\"kind\":\"soup\"}");
    assert_eq!(read_back.derived_from, vec!["origin".to_string()]);
}

#[test]
fn classifying_an_absent_gem_changes_nothing() {
    let mut s = session();
    s.store.upsert("a".to_string(), gem("kept")).unwrap();
    let classification = ClassificationData {
        title: "T".to_string(),
        content_type: "c".to_string(),
        emoji: "e".to_string(),
        sensitivity: "s".to_string(),
    };
    let changed = s
        .classify(&"missing".to_string(), classification, "d".to_string(), "j".to_string())
        .unwrap();
    assert!(!changed);
    assert_eq!(s.store.len(), 1);
    assert_eq!(s.store.get(&"a".to_string()).unwrap().description, "kept");
}

#[test]
fn deleting_a_selected_gem_drops_it_from_the_selection() {
    let mut s = session();
    s.store.upsert("a".to_string(), gem("cat")).unwrap();
    s.store.upsert("b".to_string(), gem("dog")).unwrap();
    s.toggle_selection("a".to_string());
    s.toggle_selection("b".to_string());
    s.delete_gem(&"a".to_string()).unwrap();
    assert!(!s.selection.contains(&"a".to_string()));
    assert!(s.selection.contains(&"b".to_string()));
    assert_eq!(s.selection.current().len(), 1);
}

#[test]
fn toggling_twice_restores_the_selection() {
    let mut s = session();
    s.store.upsert("a".to_string(), gem("cat")).unwrap();
    s.toggle_selection("a".to_string());
    assert!(s.selection.contains(&"a".to_string()));
    s.toggle_selection("a".to_string());
    assert!(!s.selection.contains(&"a".to_string()));
    assert_eq!(s.selection.current().len(), 0);
}

#[test]
fn clear_all_empties_store_and_selection() {
    let mut s = session();
    s.store.upsert("a".to_string(), gem("one")).unwrap();
    s.toggle_selection("a".to_string());
    s.clear_all().unwrap();
    assert_eq!(s.store.len(), 0);
    assert_eq!(s.selection.current().len(), 0);
    assert_eq!(s.store.persistence().load_all().unwrap().len(), 0);
}

#[test]
fn combine_and_commit_materializes_each_idea_as_a_gem() {
    let mut s = session();
    s.store.upsert("a".to_string(), gem("cat")).unwrap();
    s.store.upsert("b".to_string(), gem("dog")).unwrap();
    s.toggle_selection("a".to_string());
    s.edit_search("pets".to_string());

    let request = s.trigger_combine();
    assert_eq!(request.query, "pets");
    assert_eq!(request.gems.len(), 1);
    assert_eq!(request.gems[0].description, "cat");
    assert_eq!(request.source_ids, vec!["a".to_string()]);

    // The synthesis service (mocked) answers with a raw text blob, and the
    // idea parser (mocked) reads one idea out of it.
    let raw_output = "IDEA: Cat App\n---\n{}".to_string();
    s.resolve_success(raw_output.clone(), request.source_ids);
    assert_eq!(s.holding, Some(raw_output));

    let ideas = vec![MicroAppIdea {
        specification: "Cat App".to_string(),
        view_model: "{}".to_string(),
    }];
    let new_ids = s.commit_ideas(&ideas).unwrap();
    assert_eq!(new_ids.len(), 1);
    assert_eq!(s.store.len(), 3);
    let created = s.store.get(&new_ids[0]).unwrap();
    assert_eq!(created.description, "Cat App");
    assert_eq!(created.json_data, "{}");
    assert!(created.classification.is_none());
    assert_eq!(created.derived_from, vec!["a".to_string()]);
}

#[test]
fn combine_with_empty_selection_and_query_still_builds_a_request() {
    let mut s = session();
    s.store.upsert("a".to_string(), gem("unselected")).unwrap();
    let request = s.trigger_combine();
    assert_eq!(request.gems.len(), 0);
    assert_eq!(request.source_ids.len(), 0);
    assert_eq!(request.query, "");
    assert!(s.in_flight > 0);
}

#[test]
fn committing_zero_ideas_adds_nothing_and_does_not_fail() {
    let mut s = session();
    s.store.upsert("a".to_string(), gem("kept")).unwrap();
    let request = s.trigger_combine();
    // Garbage output: the idea parser (mocked) yields no ideas from it.
    s.resolve_success("no ideas here %%%".to_string(), request.source_ids);
    let no_ideas: Vec<MicroAppIdea> = Vec::new();
    let new_ids = s.commit_ideas(&no_ideas).unwrap();
    assert_eq!(new_ids.len(), 0);
    assert_eq!(s.store.len(), 1);
}

#[test]
fn later_resolving_call_wins_the_holding_slot() {
    let mut s = session();
    let first = s.trigger_combine();
    let second = s.trigger_combine();
    assert!(s.in_flight > 0);
    // The call triggered first resolves first; the one resolving later
    // overwrites the slot.
    s.resolve_success("early result".to_string(), first.source_ids);
    s.resolve_success("late result".to_string(), second.source_ids);
    assert_eq!(s.holding, Some("late result".to_string()));
    assert!(s.in_flight == 0);
    assert!(s.outcome == CombineOutcome::Succeeded);
}

#[test]
fn a_failed_combine_leaves_the_holding_slot_untouched() {
    let mut s = session();
    let request = s.trigger_combine();
    s.resolve_success("good output".to_string(), request.source_ids);
    let _second = s.trigger_combine();
    s.resolve_failure();
    assert_eq!(s.holding, Some("good output".to_string()));
    assert!(s.outcome == CombineOutcome::Failed);
    assert!(s.in_flight == 0);
}

#[test]
fn commit_fails_cleanly_when_storage_is_broken() {
    let mut s = session();
    s.store.upsert("a".to_string(), gem("kept")).unwrap();
    let request = s.trigger_combine();
    s.resolve_success("IDEA: X\n---\n{}".to_string(), request.source_ids);
    s.store.set_storage_failing(true);
    let ideas = vec![MicroAppIdea {
        specification: "X".to_string(),
        view_model: "{}".to_string(),
    }];
    assert!(s.commit_ideas(&ideas).is_err());
    assert_eq!(s.store.len(), 1);
}

#[test]
fn opening_a_session_over_a_broken_store_fails() {
    let mut adapter = StorageAdapter::new();
    adapter.set_failing(true);
    assert!(Session::new(adapter).is_err());
}
