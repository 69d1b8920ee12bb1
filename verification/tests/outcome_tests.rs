use card_draw::Card;
use card_draw::Category;
use card_draw::Color;
use card_draw::Emphasis;
use card_draw::Outcome;
use card_draw::RemoteReply;
use card_draw::Session;
use card_draw::Tint;
use card_draw::apply_outcome;
use card_draw::classify_reply;

fn bog_wraith() -> Card {
    Card {
        name: String::from("Bog Wraith"),
        color_identity: vec![Color::Black],
        oracle_id: Some(String::from("abc-1")),
        scryfall_uri: String::from("https://example/bog-wraith"),
    }
}

#[test]
fn empty_result_sentence_is_a_no_match() {
    let reply = RemoteReply::ErrorDetail(String::from(
        "0 cards matched this search, a random card could not be returned.",
    ));
    assert!(matches!(classify_reply(reply), Outcome::NoMatch));
}

#[test]
fn other_wordings_are_generic_failures() {
    let reply = RemoteReply::ErrorDetail(String::from("You have been rate limited."));
    assert!(matches!(classify_reply(reply), Outcome::Failure));
    assert!(matches!(
        classify_reply(RemoteReply::TransportFailure),
        Outcome::Failure
    ));
}

#[test]
fn found_card_is_a_success() {
    let outcome = classify_reply(RemoteReply::Found(bog_wraith()));
    match outcome {
        Outcome::Success(card) => assert_eq!(card.name, "Bog Wraith"),
        _ => panic!("a found card must classify as a success"),
    }
}

#[test]
fn successful_draw_prints_and_records() {
    let mut session = Session::new();
    let lines = apply_outcome(
        &mut session,
        Category::Creature,
        Outcome::Success(bog_wraith()),
        false,
    );
    assert_eq!(lines.len(), 2);
    let name_line = &lines[0];
    assert_eq!(name_line.len(), 3);
    assert_eq!(name_line[0].text, "Card name:");
    assert_eq!(name_line[0].emphasis, Emphasis::Plain);
    assert_eq!(name_line[1].text, " ");
    assert_eq!(name_line[1].emphasis, Emphasis::Plain);
    assert_eq!(name_line[2].text, "Bog Wraith");
    assert_eq!(name_line[2].emphasis, Emphasis::Tinted(Tint::Purple));
    let link_line = &lines[1];
    assert_eq!(link_line.len(), 2);
    assert_eq!(link_line[0].text, "Scryfall link: ");
    assert_eq!(link_line[0].emphasis, Emphasis::Plain);
    assert_eq!(link_line[1].text, "https://example/bog-wraith");
    assert_eq!(link_line[1].emphasis, Emphasis::Underlined);
    assert_eq!(
        session.exclusion_clause(Category::Creature).as_str(),
        "-oracle_id:abc-1 "
    );
}

#[test]
fn no_match_after_a_draw_leaves_state_alone() {
    let mut session = Session::new();
    apply_outcome(
        &mut session,
        Category::Creature,
        Outcome::Success(bog_wraith()),
        false,
    );
    let lines = apply_outcome(&mut session, Category::Creature, Outcome::NoMatch, false);
    assert_eq!(lines.len(), 1);
    assert_eq!(lines[0].len(), 1);
    assert_eq!(
        lines[0][0].text,
        "No cards available with the requested mana value."
    );
    assert_eq!(lines[0][0].emphasis, Emphasis::Tinted(Tint::Red));
    assert_eq!(
        session.exclusion_clause(Category::Creature).as_str(),
        "-oracle_id:abc-1 "
    );
}

#[test]
fn failure_reports_generically_and_leaves_state_alone() {
    let mut session = Session::new();
    let lines = apply_outcome(&mut session, Category::Creature, Outcome::Failure, false);
    assert_eq!(lines.len(), 2);
    assert_eq!(lines[0].len(), 1);
    assert_eq!(
        lines[0][0].text,
        "Something went wrong while fetching the card."
    );
    assert_eq!(lines[0][0].emphasis, Emphasis::Tinted(Tint::Red));
    assert_eq!(lines[1].len(), 1);
    assert_eq!(lines[1][0].text, "Please try again.");
    assert_eq!(lines[1][0].emphasis, Emphasis::Plain);
    assert_eq!(session.exclusion_clause(Category::Creature).as_str(), "");
}

#[test]
fn replacement_keeps_exclusion_state_empty() {
    let mut session = Session::new();
    apply_outcome(
        &mut session,
        Category::Creature,
        Outcome::Success(bog_wraith()),
        true,
    );
    apply_outcome(
        &mut session,
        Category::Creature,
        Outcome::Success(bog_wraith()),
        true,
    );
    assert_eq!(session.exclusion_clause(Category::Creature).as_str(), "");
}

#[test]
fn colorless_card_prints_its_name_exactly_once_in_gray() {
    let mut session = Session::new();
    let card = Card {
        name: String::from("Ornithopter"),
        color_identity: Vec::new(),
        oracle_id: Some(String::from("orn-1")),
        scryfall_uri: String::from("https://example/ornithopter"),
    };
    let lines = apply_outcome(&mut session, Category::Creature, Outcome::Success(card), false);
    let name_line = &lines[0];
    assert_eq!(name_line.len(), 3);
    assert_eq!(name_line[2].text, "Ornithopter");
    assert_eq!(name_line[2].emphasis, Emphasis::Tinted(Tint::Gray));
    let printed = name_line
        .iter()
        .filter(|span| span.text == "Ornithopter")
        .count();
    assert_eq!(printed, 1);
}

#[test]
fn multicolor_card_prints_its_name_once_per_color() {
    let mut session = Session::new();
    let card = Card {
        name: String::from("Azorius Herald"),
        color_identity: vec![Color::White, Color::Blue],
        oracle_id: Some(String::from("azh-1")),
        scryfall_uri: String::from("https://example/azorius-herald"),
    };
    let lines = apply_outcome(&mut session, Category::Creature, Outcome::Success(card), false);
    let name_line = &lines[0];
    assert_eq!(name_line.len(), 5);
    assert_eq!(name_line[2].emphasis, Emphasis::Tinted(Tint::Yellow));
    assert_eq!(name_line[4].emphasis, Emphasis::Tinted(Tint::Blue));
    assert_eq!(name_line[2].text, "Azorius Herald");
    assert_eq!(name_line[4].text, "Azorius Herald");
}
