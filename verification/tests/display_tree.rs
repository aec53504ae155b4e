use entity_store::Database;
use entity_store::Email;
use entity_store::Error;
use entity_store::NewEmail;
use entity_store::Segment;
use entity_store::Style;

fn segment(style: Style, text: &str) -> Segment {
    Segment { style, text: text.to_string() }
}

#[test]
fn printable_quotes_the_natural_key() {
    let db = Database::new();
    let e = Email {
        id: 1,
        value: "a@b.com".to_string(),
        unscoped: false,
        valid: None,
    };
    assert_eq!(e.printable(&db).unwrap().to_string(), "\"a@b.com\"");
}

#[test]
fn printable_escapes_quotes_and_backslashes() {
    let db = Database::new();
    let e = NewEmail { value: "a\"b\\c\nd".to_string(), valid: None };
    assert_eq!(e.printable(&db).unwrap().to_string(), "\"a\\\"b\\\\c\\nd\"");
}

#[test]
fn detail_of_entity_without_associations_is_a_header_and_no_children() {
    let mut db = Database::new();
    NewEmail { value: "a@b.com".to_string(), valid: None }.insert(&mut db).unwrap();
    let d = Email::get(&db, "a@b.com").unwrap().detailed(&db).unwrap();

    let header = d.print();
    let whole = d.render();
    assert_eq!(whole, header);
    assert!(d.children().is_empty());
    assert_eq!(
        whole,
        vec![segment(Style::Plain, "#1 "), segment(Style::Green, "\"a@b.com\"")]
    );
    assert_eq!(d.to_string(), "#1 \"a@b.com\"");
}

#[test]
fn header_badges_show_the_validity_attribute() {
    let mut db = Database::new();
    NewEmail { value: "ok@x.io".to_string(), valid: Some(true) }.insert(&mut db).unwrap();
    NewEmail { value: "bad@x.io".to_string(), valid: Some(false) }.insert(&mut db).unwrap();

    let ok = Email::get(&db, "ok@x.io").unwrap().detailed(&db).unwrap();
    assert_eq!(
        ok.print(),
        vec![
            segment(Style::Plain, "#1 "),
            segment(Style::Green, "\"ok@x.io\""),
            segment(Style::Plain, " ["),
            segment(Style::Green, "valid"),
            segment(Style::Plain, "]"),
        ]
    );

    let bad = Email::get(&db, "bad@x.io").unwrap().detailed(&db).unwrap();
    assert_eq!(
        bad.print(),
        vec![
            segment(Style::Plain, "#2 "),
            segment(Style::Green, "\"bad@x.io\""),
            segment(Style::Plain, " ["),
            segment(Style::Red, "invalid"),
            segment(Style::Plain, "]"),
        ]
    );
}

#[test]
fn unscoped_entities_render_muted_but_render() {
    let mut db = Database::new();
    NewEmail { value: "a@b.com".to_string(), valid: None }.insert(&mut db).unwrap();
    Email::noscope(&mut db, &entity_store::Filter::Any).unwrap();
    let d = Email::get(&db, "a@b.com").unwrap().detailed(&db).unwrap();
    assert!(!d.scoped());
    assert_eq!(
        d.print(),
        vec![segment(Style::Plain, "#1 "), segment(Style::Muted, "\"a@b.com\"")]
    );
}

#[test]
fn detail_resolves_children_with_their_payload() {
    let mut db = Database::new();
    NewEmail { value: "a@b.com".to_string(), valid: Some(true) }.insert(&mut db).unwrap();
    let e = Email::get(&db, "a@b.com").unwrap();
    let b1 = db.insert_breach("big-leak").unwrap();
    let b2 = db.insert_breach("old-dump").unwrap();
    db.link_breach_email(b1, e.id, Some("hunter2".to_string()));
    db.link_breach_email(b2, e.id, None);

    let d = e.detailed(&db).unwrap();
    let kids = d.children();
    assert_eq!(kids, vec!["\"big-leak\" (\"hunter2\")".to_string(), "\"old-dump\"".to_string()]);
    assert_eq!(
        d.to_string(),
        "#1 \"a@b.com\" [valid]\n  \"big-leak\" (\"hunter2\")\n  \"old-dump\""
    );
}

#[test]
fn resolution_over_a_deleted_target_is_an_integrity_fault() {
    let mut db = Database::new();
    NewEmail { value: "a@b.com".to_string(), valid: None }.insert(&mut db).unwrap();
    let e = Email::get(&db, "a@b.com").unwrap();
    let b = db.insert_breach("gone-soon").unwrap();
    db.link_breach_email(b, e.id, None);

    assert_eq!(e.breaches(&db).unwrap().len(), 1);

    assert_eq!(db.delete_breach(b), 1);
    assert_eq!(e.breaches(&db).unwrap_err(), Error::IntegrityFault(b));
    assert_eq!(e.detailed(&db).unwrap_err(), Error::IntegrityFault(b));
}

#[test]
fn association_rows_do_not_leak_into_other_emails() {
    let mut db = Database::new();
    NewEmail { value: "a@b.com".to_string(), valid: None }.insert(&mut db).unwrap();
    NewEmail { value: "c@d.org".to_string(), valid: None }.insert(&mut db).unwrap();
    let a = Email::get(&db, "a@b.com").unwrap();
    let c = Email::get(&db, "c@d.org").unwrap();
    let b = db.insert_breach("leak").unwrap();
    db.link_breach_email(b, a.id, None);

    assert_eq!(a.breaches(&db).unwrap().len(), 1);
    assert!(c.breaches(&db).unwrap().is_empty());
}

#[test]
fn accessors_mirror_the_row() {
    let e = Email {
        id: 9,
        value: "k@l.mn".to_string(),
        unscoped: true,
        valid: Some(false),
    };
    assert_eq!(e.id(), 9);
    assert_eq!(e.value(), "k@l.mn");
    assert_eq!(e.to_string(), "k@l.mn");
    assert!(!e.scoped());
    let n = NewEmail { value: "k@l.mn".to_string(), valid: None };
    assert_eq!(n.value(), "k@l.mn");
}

#[test]
fn children_render_muted_when_the_entity_is_unscoped() {
    let mut db = Database::new();
    NewEmail { value: "a@b.com".to_string(), valid: None }.insert(&mut db).unwrap();
    let e = Email::get(&db, "a@b.com").unwrap();
    let b = db.insert_breach("leak").unwrap();
    db.link_breach_email(b, e.id, None);
    Email::noscope(&mut db, &entity_store::Filter::Any).unwrap();

    let d = Email::get(&db, "a@b.com").unwrap().detailed(&db).unwrap();
    assert_eq!(
        d.render(),
        vec![
            segment(Style::Plain, "#1 "),
            segment(Style::Muted, "\"a@b.com\""),
            segment(Style::Plain, "\n  "),
            segment(Style::Muted, "\"leak\""),
        ]
    );
}

#[test]
fn quoting_handles_empty_and_control_characters() {
    let db = Database::new();
    let empty = NewEmail { value: String::new(), valid: None };
    assert_eq!(empty.printable(&db).unwrap().to_string(), "\"\"");
    let tabby = NewEmail { value: "a\tb\r".to_string(), valid: None };
    assert_eq!(tabby.printable(&db).unwrap().to_string(), "\"a\\tb\\r\"");
}

#[test]
fn header_renders_ids_of_many_digits() {
    let d = entity_store::DetailedEmail {
        id: 1048576,
        value: "x".to_string(),
        breaches: Vec::new(),
        unscoped: false,
        valid: None,
    };
    assert_eq!(
        d.print(),
        vec![segment(Style::Plain, "#1048576 "), segment(Style::Green, "\"x\"")]
    );
    let neg = entity_store::DetailedEmail {
        id: -12,
        value: "x".to_string(),
        breaches: Vec::new(),
        unscoped: false,
        valid: None,
    };
    assert_eq!(neg.print()[0], segment(Style::Plain, "#-12 "));
}
