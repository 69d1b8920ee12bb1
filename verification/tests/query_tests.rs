use card_draw::Category;
use card_draw::Session;
use card_draw::build_query;

#[test]
fn creature_query_uses_exact_equality() {
    let q = build_query(Category::Creature, 2, &String::new(), false);
    assert_eq!(
        q,
        "((-is:dfc AND t:creature) OR (t:/.*Creature.*\\//)) -is:digital -is:reversible cmc:2  -is:funny"
    );
    assert!(q.contains("cmc:2"));
    assert!(!q.contains("cmc<"));
}

#[test]
fn equipment_query_uses_strict_less_than() {
    let q = build_query(Category::Equipment, 4, &String::new(), false);
    assert_eq!(
        q,
        "((-is:dfc AND t:equipment) OR (t:/.*Equipment.*\\//)) -is:digital -is:reversible cmc<4  -is:funny"
    );
    assert!(q.contains("cmc<4"));
    assert!(!q.contains("cmc:"));
}

#[test]
fn funny_filter_present_iff_flag_not_set() {
    let with_filter = build_query(Category::Creature, 3, &String::new(), false);
    assert!(with_filter.ends_with("-is:funny"));
    let without_filter = build_query(Category::Creature, 3, &String::new(), true);
    assert!(!without_filter.contains("-is:funny"));
    assert_eq!(
        without_filter,
        "((-is:dfc AND t:creature) OR (t:/.*Creature.*\\//)) -is:digital -is:reversible cmc:3  "
    );
}

#[test]
fn query_renders_mana_value_bounds() {
    let zero = build_query(Category::Creature, 0, &String::new(), true);
    assert!(zero.contains("cmc:0 "));
    let large = build_query(Category::Creature, 4294967295, &String::new(), true);
    assert!(large.contains("cmc:4294967295 "));
}

#[test]
fn next_query_excludes_all_seen() {
    let mut session = Session::new();
    session.record_draw(Category::Creature, &String::from("abc-1"));
    session.record_draw(Category::Creature, &String::from("def-2"));
    let q = build_query(
        Category::Creature,
        5,
        session.exclusion_clause(Category::Creature),
        false,
    );
    assert!(q.contains("-oracle_id:abc-1 "));
    assert!(q.contains("-oracle_id:def-2 "));
}
