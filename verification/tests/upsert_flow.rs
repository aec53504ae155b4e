use entity_store::Database;
use entity_store::Email;
use entity_store::EmailUpdate;
use entity_store::Error;
use entity_store::NewEmail;
use entity_store::Update;

#[test]
fn upsert_sets_only_fields_that_differ() {
    let existing = Email {
        id: 7,
        value: "a@b.com".to_string(),
        unscoped: false,
        valid: None,
    };
    let u = NewEmail { value: "a@b.com".to_string(), valid: Some(true) }.upsert(&existing);
    assert_eq!(u.id, 7);
    assert_eq!(u.valid, Some(true));
    assert!(u.is_dirty());
}

#[test]
fn upsert_clears_fields_that_are_equal() {
    let existing = Email {
        id: 7,
        value: "a@b.com".to_string(),
        unscoped: false,
        valid: Some(true),
    };
    let u = NewEmail { value: "a@b.com".to_string(), valid: Some(true) }.upsert(&existing);
    assert_eq!(u.valid, None);
    assert!(!u.is_dirty());
}

#[test]
fn is_dirty_tracks_differences_per_field() {
    let cases: [(Option<bool>, Option<bool>); 4] = [
        (Some(true), Some(false)),
        (Some(false), Some(false)),
        (Some(true), None),
        (None, None),
    ];
    for (proposed, stored) in cases {
        let existing = Email {
            id: 1,
            value: "k".to_string(),
            unscoped: false,
            valid: stored,
        };
        let u = NewEmail { value: "k".to_string(), valid: proposed }.upsert(&existing);
        assert_eq!(u.is_dirty(), proposed != stored);
    }
}

#[test]
fn applying_a_clean_update_changes_nothing() {
    let mut db = Database::new();
    NewEmail { value: "a@b.com".to_string(), valid: Some(true) }.insert(&mut db).unwrap();
    let before = Email::list(&db).unwrap();

    let clean = EmailUpdate { id: 1, valid: None };
    assert!(!clean.is_dirty());
    assert_eq!(clean.apply(&mut db).unwrap(), 1);

    let after = Email::list(&db).unwrap();
    assert_eq!(before, after);
    assert_eq!(Email::get(&db, "a@b.com").unwrap().valid, Some(true));
}

#[test]
fn apply_on_an_absent_id_is_not_found() {
    let mut db = Database::new();
    let u = EmailUpdate { id: 5, valid: Some(true) };
    assert_eq!(u.apply(&mut db).unwrap_err(), Error::NotFound);
}

#[test]
fn changeset_clears_what_equals_the_snapshot() {
    let existing = Email {
        id: 2,
        value: "x".to_string(),
        unscoped: false,
        valid: Some(false),
    };
    let mut u = EmailUpdate { id: 2, valid: Some(false) };
    u.changeset(&existing);
    assert_eq!(u.valid, None);

    let mut v = EmailUpdate { id: 2, valid: Some(true) };
    v.changeset(&existing);
    assert_eq!(v.valid, Some(true));
}

#[test]
fn fmt_lists_only_set_fields() {
    let mut audit: Vec<String> = Vec::new();
    EmailUpdate { id: 1, valid: None }.fmt(&mut audit);
    assert!(audit.is_empty());
    EmailUpdate { id: 1, valid: Some(true) }.fmt(&mut audit);
    EmailUpdate { id: 1, valid: Some(false) }.fmt(&mut audit);
    assert_eq!(audit, vec!["valid -> true".to_string(), "valid -> false".to_string()]);
}

#[test]
fn generic_wraps_the_delta() {
    let u = EmailUpdate { id: 3, valid: Some(true) };
    assert_eq!(u.generic(), Update::Email(u));
}

#[test]
fn insert_then_upsert_scenario() {
    let mut db = Database::new();

    // first insert succeeds and the entity gains an id
    NewEmail { value: "a@b.com".to_string(), valid: None }.insert(&mut db).unwrap();
    let stored = Email::get(&db, "a@b.com").unwrap();
    assert_eq!(stored.id, 1);
    assert_eq!(stored.valid, None);

    // the same key again clashes
    let err = NewEmail { value: "a@b.com".to_string(), valid: None }
        .insert(&mut db)
        .unwrap_err();
    assert_eq!(err, Error::ConstraintViolation);

    // upsert against the snapshot yields a dirty delta carrying the change
    let update = NewEmail { value: "a@b.com".to_string(), valid: Some(true) }.upsert(&stored);
    assert_eq!(update.id, stored.id);
    assert_eq!(update.valid, Some(true));
    assert!(update.is_dirty());

    // applying and re-fetching shows the change
    assert_eq!(update.apply(&mut db).unwrap(), stored.id);
    let refetched = Email::get(&db, "a@b.com").unwrap();
    assert_eq!(refetched.valid, Some(true));

    // the identical upsert computation is now clean
    let again = NewEmail { value: "a@b.com".to_string(), valid: Some(true) }.upsert(&refetched);
    assert!(!again.is_dirty());
}
