use entity_store::Database;
use entity_store::Email;
use entity_store::Error;
use entity_store::Filter;
use entity_store::NewEmail;

fn seeded() -> Database {
    let mut db = Database::new();
    NewEmail { value: "a@b.com".to_string(), valid: None }.insert(&mut db).unwrap();
    NewEmail { value: "c@d.org".to_string(), valid: Some(true) }.insert(&mut db).unwrap();
    NewEmail { value: "e@f.net".to_string(), valid: Some(false) }.insert(&mut db).unwrap();
    db
}

#[test]
fn insert_assigns_fresh_ids_in_order() {
    let db = seeded();
    let all = Email::list(&db).unwrap();
    assert_eq!(all.len(), 3);
    assert_eq!(all[0].id, 1);
    assert_eq!(all[0].value, "a@b.com");
    assert!(!all[0].unscoped);
    assert_eq!(all[1].id, 2);
    assert_eq!(all[2].id, 3);
    assert_eq!(all[2].valid, Some(false));
}

#[test]
fn insert_duplicate_key_is_constraint_violation() {
    let mut db = seeded();
    let err = NewEmail { value: "a@b.com".to_string(), valid: Some(true) }
        .insert(&mut db)
        .unwrap_err();
    assert_eq!(err, Error::ConstraintViolation);
    // the failed insert mutated nothing
    let all = Email::list(&db).unwrap();
    assert_eq!(all.len(), 3);
    assert_eq!(Email::get(&db, "a@b.com").unwrap().valid, None);
}

#[test]
fn get_finds_by_natural_key() {
    let db = seeded();
    let e = Email::get(&db, "c@d.org").unwrap();
    assert_eq!(e.id, 2);
    assert_eq!(e.value, "c@d.org");
    assert_eq!(e.valid, Some(true));
}

#[test]
fn get_miss_is_not_found() {
    let db = seeded();
    assert_eq!(Email::get(&db, "nobody@x.io").unwrap_err(), Error::NotFound);
}

#[test]
fn get_opt_is_empty_exactly_where_get_fails() {
    let db = seeded();
    for key in ["a@b.com", "c@d.org", "nobody@x.io", ""] {
        let opt = Email::get_opt(&db, key).unwrap();
        let got = Email::get(&db, key);
        match got {
            Ok(e) => assert_eq!(opt, Some(e)),
            Err(err) => {
                assert_eq!(err, Error::NotFound);
                assert_eq!(opt, None);
            }
        }
    }
}

#[test]
fn by_id_hits_and_misses() {
    let db = seeded();
    let e = Email::by_id(&db, 3).unwrap();
    assert_eq!(e.value, "e@f.net");
    assert_eq!(Email::by_id(&db, 17).unwrap_err(), Error::NotFound);
}

#[test]
fn filter_selects_matching_rows() {
    let db = seeded();
    let valid_set = Email::filter(&db, &Filter::ValidEq(Some(true))).unwrap();
    assert_eq!(valid_set.len(), 1);
    assert_eq!(valid_set[0].value, "c@d.org");

    let none = Email::filter(&db, &Filter::ValueEq("nobody@x.io".to_string())).unwrap();
    assert!(none.is_empty());

    let not_first = Email::filter(
        &db,
        &Filter::Not(Box::new(Filter::ValueEq("a@b.com".to_string()))),
    )
    .unwrap();
    assert_eq!(not_first.len(), 2);

    let or = Email::filter(
        &db,
        &Filter::Or(
            Box::new(Filter::IdEq(1)),
            Box::new(Filter::ValidEq(Some(false))),
        ),
    )
    .unwrap();
    assert_eq!(or.len(), 2);

    let and = Email::filter(
        &db,
        &Filter::And(
            Box::new(Filter::IdEq(1)),
            Box::new(Filter::ValidEq(Some(false))),
        ),
    )
    .unwrap();
    assert!(and.is_empty());
}

#[test]
fn delete_removes_matching_rows_and_counts_them() {
    let mut db = seeded();
    let n = Email::delete(&mut db, &Filter::ValidEq(None)).unwrap();
    assert_eq!(n, 1);
    let all = Email::list(&db).unwrap();
    assert_eq!(all.len(), 2);
    assert_eq!(Email::get(&db, "a@b.com").unwrap_err(), Error::NotFound);

    let everything = Email::delete(&mut db, &Filter::Any).unwrap();
    assert_eq!(everything, 2);
    assert!(Email::list(&db).unwrap().is_empty());
}

#[test]
fn delete_id_removes_one_row() {
    let mut db = seeded();
    assert_eq!(Email::delete_id(&mut db, 2).unwrap(), 1);
    assert_eq!(Email::delete_id(&mut db, 2).unwrap(), 0);
    assert_eq!(Email::list(&db).unwrap().len(), 2);
}

#[test]
fn ids_are_never_reused_after_delete() {
    let mut db = seeded();
    Email::delete_id(&mut db, 3).unwrap();
    NewEmail { value: "g@h.de".to_string(), valid: None }.insert(&mut db).unwrap();
    let e = Email::get(&db, "g@h.de").unwrap();
    assert_eq!(e.id, 4);
}

#[test]
fn scope_and_noscope_flip_the_flag_and_count_touched_rows() {
    let mut db = seeded();
    let p = Filter::ValueEq("a@b.com".to_string());
    assert_eq!(Email::noscope(&mut db, &p).unwrap(), 1);
    assert!(!Email::get(&db, "a@b.com").unwrap().scoped());
    assert!(Email::get(&db, "c@d.org").unwrap().scoped());

    assert_eq!(Email::scope(&mut db, &p).unwrap(), 1);
    assert!(Email::get(&db, "a@b.com").unwrap().scoped());
}

#[test]
fn scoping_is_idempotent_and_the_last_operation_wins() {
    let mut db = seeded();
    let p = Filter::Any;
    Email::noscope(&mut db, &p).unwrap();
    Email::noscope(&mut db, &p).unwrap();
    for e in Email::list(&db).unwrap() {
        assert!(!e.scoped());
    }
    Email::noscope(&mut db, &p).unwrap();
    Email::scope(&mut db, &p).unwrap();
    for e in Email::list(&db).unwrap() {
        assert!(e.scoped());
    }
}

#[test]
fn scoping_never_destroys_data() {
    let mut db = seeded();
    Email::noscope(&mut db, &Filter::Any).unwrap();
    assert_eq!(Email::list(&db).unwrap().len(), 3);
}
