use card_draw::Command;
use card_draw::read_command;

#[test]
fn quit_on_plain_q() {
    assert_eq!(read_command("q"), Command::Quit);
}

#[test]
fn quit_on_q_with_surrounding_whitespace() {
    assert_eq!(read_command(" q\n"), Command::Quit);
    assert_eq!(read_command("\tq \r\n"), Command::Quit);
}

#[test]
fn mana_value_parses() {
    assert_eq!(read_command("3"), Command::Mana(3));
    assert_eq!(read_command("0"), Command::Mana(0));
    assert_eq!(read_command("  42  \n"), Command::Mana(42));
    assert_eq!(read_command("007"), Command::Mana(7));
    assert_eq!(read_command("+7"), Command::Mana(7));
    assert_eq!(read_command("4294967295"), Command::Mana(4294967295));
}

#[test]
fn invalid_lines_reprompt() {
    assert_eq!(read_command("abc"), Command::Invalid);
    assert_eq!(read_command(""), Command::Invalid);
    assert_eq!(read_command("   \n"), Command::Invalid);
    assert_eq!(read_command("+"), Command::Invalid);
    assert_eq!(read_command("-1"), Command::Invalid);
    assert_eq!(read_command("3.5"), Command::Invalid);
    assert_eq!(read_command("q q"), Command::Invalid);
    assert_eq!(read_command("qq"), Command::Invalid);
    assert_eq!(read_command("Q"), Command::Invalid);
}

#[test]
fn overflow_is_invalid() {
    assert_eq!(read_command("4294967296"), Command::Invalid);
    assert_eq!(read_command("99999999999999999999"), Command::Invalid);
}
