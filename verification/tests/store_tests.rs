use contact_list::store::{seeded, ContactStore};

#[test]
fn empty_store_lists_nothing() {
    let s = ContactStore::new();
    assert!(s.list().is_empty());
    assert!(s.search("").is_empty());
}

#[test]
fn append_returns_the_given_fields() {
    let mut s = ContactStore::new();
    let c = s.append("Alice".to_string(), "alice@x.com".to_string());
    assert_eq!(c.name, "Alice");
    assert_eq!(c.email, "alice@x.com");
}

#[test]
fn list_preserves_insertion_order() {
    let mut s = ContactStore::new();
    s.append("A".to_string(), "a@x".to_string());
    s.append("B".to_string(), "b@x".to_string());
    s.append("C".to_string(), "c@x".to_string());
    let names: Vec<String> = s.list().into_iter().map(|c| c.name).collect();
    assert_eq!(names, vec!["A".to_string(), "B".to_string(), "C".to_string()]);
}

#[test]
fn seeded_store_holds_john_then_jane() {
    let s = seeded();
    let all = s.list();
    assert_eq!(all.len(), 2);
    assert_eq!(all[0].name, "John");
    assert_eq!(all[0].email, "john@email.com");
    assert_eq!(all[1].name, "Jane");
    assert_eq!(all[1].email, "jane@email.com");
}

#[test]
fn appended_ids_are_valid_uuids() {
    let mut s = ContactStore::new();
    let c = s.append("Alice".to_string(), "alice@x.com".to_string());
    assert_eq!(c.id.len(), 36);
    uuid::Uuid::parse_str(&c.id).expect("the assigned id is a UUID string");
}

#[test]
fn hundred_appends_lose_no_writes_and_share_no_id() {
    let mut s = seeded();
    for k in 0..100 {
        s.append(format!("name{}", k), format!("user{}@x.com", k));
    }
    let all = s.list();
    assert_eq!(all.len(), 102);
    for i in 0..all.len() {
        for j in 0..all.len() {
            if i != j {
                assert_ne!(all[i].id, all[j].id);
            }
        }
    }
    for k in 0..100 {
        assert_eq!(all[k + 2].name, format!("name{}", k));
    }
}

#[test]
fn appends_through_a_shared_lock_lose_no_writes() {
    let shared = std::sync::Arc::new(std::sync::Mutex::new(seeded()));
    for k in 0..100 {
        let store = shared.clone();
        store.lock().unwrap().append(format!("name{}", k), format!("user{}@x.com", k));
    }
    let all = shared.lock().unwrap().list();
    assert_eq!(all.len(), 102);
    for i in 0..all.len() {
        for j in 0..all.len() {
            if i != j {
                assert_ne!(all[i].id, all[j].id);
            }
        }
    }
}

#[test]
fn search_returns_exactly_the_matching_subset() {
    let s = seeded();
    let hits = s.search("an");
    assert_eq!(hits.len(), 1);
    assert_eq!(hits[0].name, "Jane");
}

#[test]
fn search_matches_on_email_too() {
    let s = seeded();
    let hits = s.search("john@");
    assert_eq!(hits.len(), 1);
    assert_eq!(hits[0].name, "John");
}

#[test]
fn search_with_empty_query_returns_all() {
    let s = seeded();
    let hits = s.search("");
    assert_eq!(hits.len(), 2);
    assert_eq!(hits[0].name, "John");
    assert_eq!(hits[1].name, "Jane");
}

#[test]
fn search_is_case_sensitive() {
    let s = seeded();
    assert!(s.search("JOHN").is_empty());
    assert_eq!(s.search("john").len(), 1);
}

#[test]
fn search_without_match_returns_nothing() {
    let s = seeded();
    assert!(s.search("zzz").is_empty());
}

#[test]
fn search_and_list_do_not_change_the_store() {
    let s = seeded();
    let before: Vec<(String, String)> =
        s.list().into_iter().map(|c| (c.name, c.email)).collect();
    let _ = s.search("an");
    let _ = s.search("");
    let _ = s.list();
    let after: Vec<(String, String)> =
        s.list().into_iter().map(|c| (c.name, c.email)).collect();
    assert_eq!(before, after);
}

#[test]
fn create_then_list_then_search_end_to_end() {
    let mut s = seeded();
    let created = s.append("Alice".to_string(), "alice@x.com".to_string());
    assert_eq!(created.name, "Alice");
    assert_eq!(created.email, "alice@x.com");
    let names: Vec<String> = s.list().into_iter().map(|c| c.name).collect();
    assert_eq!(
        names,
        vec!["John".to_string(), "Jane".to_string(), "Alice".to_string()]
    );
    let hits = s.search("an");
    assert_eq!(hits.len(), 1);
    assert_eq!(hits[0].name, "Jane");
}

#[test]
fn matches_checks_name_and_email() {
    let mut s = ContactStore::new();
    let c = s.append("Jane".to_string(), "jane@email.com".to_string());
    assert!(c.matches("an"));
    assert!(c.matches("@email"));
    assert!(!c.matches("An"));
    assert!(c.matches(""));
}
