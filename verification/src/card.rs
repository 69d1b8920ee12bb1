//! The card record returned by a successful draw, its identity colors, and
//! the mapping from identity colors to terminal colors.

use vstd::prelude::*;

verus! {

/// One identity color of a card.
#[derive(Clone, Copy, PartialEq, Eq, Structural, Debug)]
pub enum Color {
    White,
    Blue,
    Black,
    Red,
    Green,
    Colorless,
}

/// A terminal color used when printing a card's name.
#[derive(Clone, Copy, PartialEq, Eq, Structural, Debug)]
pub enum Tint {
    /// The purple used for black identity.
    Purple,
    /// The yellow used for white identity.
    Yellow,
    Blue,
    Red,
    Green,
    /// The neutral gray used for colorless cards.
    Gray,
}

/// A card as the session sees it: the fields of the remote record that the
/// session reads, already reduced to plain values.
pub struct Card {
    pub name: String,
    pub color_identity: Vec<Color>,
    /// The card's unique identifier; absent only for card variants that the
    /// queries built here always exclude.
    pub oracle_id: Option<String>,
    pub scryfall_uri: String,
}

/// The fixed identity-color-to-terminal-color table.
pub open spec fn tint_of(c: Color) -> Tint {
    match c {
        Color::Black => Tint::Purple,
        Color::White => Tint::Yellow,
        Color::Blue => Tint::Blue,
        Color::Red => Tint::Red,
        Color::Green => Tint::Green,
        Color::Colorless => Tint::Gray,
    }
}

/// Look one identity color up in the table.
pub fn tint_of_color(c: Color) -> (t: Tint)
    ensures
        t == tint_of(c),
{
    match c {
        Color::Black => Tint::Purple,
        Color::White => Tint::Yellow,
        Color::Blue => Tint::Blue,
        Color::Red => Tint::Red,
        Color::Green => Tint::Green,
        Color::Colorless => Tint::Gray,
    }
}

/// The terminal colors in which a card's name is printed: one per identity
/// color, and the neutral gray alone when the card has none, so the name is
/// always printed at least once.
pub open spec fn display_tints_spec(colors: Seq<Color>) -> Seq<Tint> {
    if colors.len() == 0 {
        seq![Tint::Gray]
    } else {
        colors.map_values(|c: Color| tint_of(c))
    }
}

/// Compute the terminal colors for a card's name.
pub fn display_tints(colors: &Vec<Color>) -> (tints: Vec<Tint>)
    ensures
        tints@ == display_tints_spec(colors@),
        tints@.len() >= 1,
{
    let mut tints: Vec<Tint> = Vec::new();
    let mut i: usize = 0;
    while i < colors.len()
        invariant
            i <= colors@.len(),
            tints@ == colors@.subrange(0, i as int).map_values(|c: Color| tint_of(c)),
        decreases colors@.len() - i,
    {
        tints.push(tint_of_color(colors[i]));
        proof {
            assert(colors@.subrange(0, i + 1).map_values(|c: Color| tint_of(c))
                =~= colors@.subrange(0, i as int).map_values(|c: Color| tint_of(c)).push(
                tint_of(colors@[i as int]),
            ));
        }
        i = i + 1;
    }
    if tints.len() == 0 {
        tints.push(Tint::Gray);
        proof {
            assert(tints@ =~= seq![Tint::Gray]);
        }
    }
    proof {
        assert(colors@.subrange(0, colors@.len() as int) =~= colors@);
    }
    tints
}

} // verus!
