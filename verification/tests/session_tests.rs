use card_draw::Category;
use card_draw::Session;

#[test]
fn fresh_session_has_empty_clauses() {
    let session = Session::new();
    assert_eq!(session.exclusion_clause(Category::Creature).as_str(), "");
    assert_eq!(session.exclusion_clause(Category::Equipment).as_str(), "");
}

#[test]
fn one_draw_yields_one_fragment() {
    let mut session = Session::new();
    session.record_draw(Category::Creature, &String::from("abc-1"));
    assert_eq!(
        session.exclusion_clause(Category::Creature).as_str(),
        "-oracle_id:abc-1 "
    );
}

#[test]
fn draws_accumulate_in_order() {
    let mut session = Session::new();
    session.record_draw(Category::Creature, &String::from("a"));
    session.record_draw(Category::Creature, &String::from("b"));
    session.record_draw(Category::Creature, &String::from("c"));
    assert_eq!(
        session.exclusion_clause(Category::Creature).as_str(),
        "-oracle_id:a -oracle_id:b -oracle_id:c "
    );
}

#[test]
fn repeated_identifier_changes_nothing() {
    let mut session = Session::new();
    session.record_draw(Category::Creature, &String::from("a"));
    session.record_draw(Category::Creature, &String::from("a"));
    assert_eq!(session.exclusion_clause(Category::Creature).as_str(), "-oracle_id:a ");
}

#[test]
fn categories_are_tracked_independently() {
    let mut session = Session::new();
    session.record_draw(Category::Creature, &String::from("a"));
    session.record_draw(Category::Equipment, &String::from("b"));
    assert_eq!(session.exclusion_clause(Category::Creature).as_str(), "-oracle_id:a ");
    assert_eq!(
        session.exclusion_clause(Category::Equipment).as_str(),
        "-oracle_id:b "
    );
}
