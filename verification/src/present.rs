//! The console output of one draw, laid out as data: lines of spans, each
//! span a piece of text with the emphasis it is printed under. Painting the
//! spans is left to the caller.

use vstd::prelude::*;
use vstd::string::StringExecFns;
use crate::card::Card;
use crate::card::Tint;
use crate::card::display_tints;
use crate::card::display_tints_spec;

verus! {

/// How one span of text is printed.
#[derive(Clone, Copy, PartialEq, Eq, Structural, Debug)]
pub enum Emphasis {
    /// Plain text, no styling.
    Plain,
    /// Painted in one terminal color.
    Tinted(Tint),
    /// Underlined, as the link is.
    Underlined,
}

/// One run of text printed under one emphasis. A line is a sequence of
/// spans printed without separators, then a newline.
pub struct Span {
    pub text: String,
    pub emphasis: Emphasis,
}

/// A span reduced to what the contracts speak about.
pub open spec fn span_view(s: Span) -> (Seq<char>, Emphasis) {
    (s.text@, s.emphasis)
}

/// The name line of a successful draw: the `Card name:` label, then for
/// each display tint a plain space and the card's name painted in that
/// tint.
pub open spec fn name_spans_spec(name: Seq<char>, tints: Seq<Tint>) -> Seq<(Seq<char>, Emphasis)>
    decreases tints.len(),
{
    if tints.len() == 0 {
        seq![("Card name:"@, Emphasis::Plain)]
    } else {
        name_spans_spec(name, tints.drop_last()) + seq![
            (" "@, Emphasis::Plain),
            (name, Emphasis::Tinted(tints.last())),
        ]
    }
}

/// The spans are exactly the name line of this card.
pub open spec fn is_name_line(spans: Seq<Span>, card: Card) -> bool {
    spans.map_values(|s: Span| span_view(s)) == name_spans_spec(
        card.name@,
        display_tints_spec(card.color_identity@),
    )
}

/// The spans are exactly the link line of this card.
pub open spec fn is_link_line(spans: Seq<Span>, card: Card) -> bool {
    &&& spans.len() == 2
    &&& spans[0].text@ == "Scryfall link: "@
    &&& spans[0].emphasis == Emphasis::Plain
    &&& spans[1].text@ == card.scryfall_uri@
    &&& spans[1].emphasis == Emphasis::Underlined
}

/// The single warning line reported when no card matched.
pub open spec fn is_no_match_line(spans: Seq<Span>) -> bool {
    &&& spans.len() == 1
    &&& spans[0].text@ == "No cards available with the requested mana value."@
    &&& spans[0].emphasis == Emphasis::Tinted(Tint::Red)
}

/// The two lines reported on any other failure.
pub open spec fn is_failure_report(lines: Seq<Vec<Span>>) -> bool {
    &&& lines.len() == 2
    &&& lines[0]@.len() == 1
    &&& lines[0]@[0].text@ == "Something went wrong while fetching the card."@
    &&& lines[0]@[0].emphasis == Emphasis::Tinted(Tint::Red)
    &&& lines[1]@.len() == 1
    &&& lines[1]@[0].text@ == "Please try again."@
    &&& lines[1]@[0].emphasis == Emphasis::Plain
}

/// Lay out the name line of a successful draw.
#[verifier::loop_isolation(false)]
pub fn card_name_line(card: &Card) -> (spans: Vec<Span>)
    ensures
        is_name_line(spans@, *card),
{
    let ghost tseq = display_tints_spec(card.color_identity@);
    let tints = display_tints(&card.color_identity);
    let mut spans: Vec<Span> = Vec::new();
    spans.push(Span { text: String::from_str("Card name:"), emphasis: Emphasis::Plain });
    proof {
        assert(tseq.subrange(0, 0) =~= Seq::<Tint>::empty());
        assert(spans@.map_values(|s: Span| span_view(s)) =~= name_spans_spec(
            card.name@,
            tseq.subrange(0, 0),
        ));
    }
    let mut k: usize = 0;
    while k < tints.len()
        invariant
            k <= tseq.len(),
            spans@.map_values(|s: Span| span_view(s)) == name_spans_spec(
                card.name@,
                tseq.subrange(0, k as int),
            ),
        decreases tseq.len() - k,
    {
        spans.push(Span { text: String::from_str(" "), emphasis: Emphasis::Plain });
        spans.push(Span { text: card.name.clone(), emphasis: Emphasis::Tinted(tints[k]) });
        proof {
            assert(tseq.subrange(0, k + 1).drop_last() =~= tseq.subrange(0, k as int));
            assert(tseq.subrange(0, k + 1).last() == tseq[k as int]);
            assert(spans@.map_values(|s: Span| span_view(s)) =~= name_spans_spec(
                card.name@,
                tseq.subrange(0, k + 1),
            ));
        }
        k = k + 1;
    }
    proof {
        assert(tseq.subrange(0, tseq.len() as int) =~= tseq);
    }
    spans
}

/// Lay out the link line of a successful draw.
pub fn link_line(card: &Card) -> (spans: Vec<Span>)
    ensures
        is_link_line(spans@, *card),
{
    let mut spans: Vec<Span> = Vec::new();
    spans.push(Span { text: String::from_str("Scryfall link: "), emphasis: Emphasis::Plain });
    spans.push(Span { text: card.scryfall_uri.clone(), emphasis: Emphasis::Underlined });
    spans
}

/// The warning line for a draw that matched no card.
pub fn no_match_line() -> (spans: Vec<Span>)
    ensures
        is_no_match_line(spans@),
{
    let mut spans: Vec<Span> = Vec::new();
    spans.push(
        Span {
            text: String::from_str("No cards available with the requested mana value."),
            emphasis: Emphasis::Tinted(Tint::Red),
        },
    );
    spans
}

/// The generic report for any other failure.
pub fn failure_lines() -> (lines: Vec<Vec<Span>>)
    ensures
        is_failure_report(lines@),
{
    let mut first: Vec<Span> = Vec::new();
    first.push(
        Span {
            text: String::from_str("Something went wrong while fetching the card."),
            emphasis: Emphasis::Tinted(Tint::Red),
        },
    );
    let mut second: Vec<Span> = Vec::new();
    second.push(Span { text: String::from_str("Please try again."), emphasis: Emphasis::Plain });
    let mut lines: Vec<Vec<Span>> = Vec::new();
    lines.push(first);
    lines.push(second);
    lines
}

/// How many spans of a line are painted in some tint.
pub open spec fn tinted_count(spans: Seq<(Seq<char>, Emphasis)>) -> nat
    decreases spans.len(),
{
    if spans.len() == 0 {
        0
    } else {
        tinted_count(spans.drop_last()) + (if spans.last().1 is Tinted {
            1nat
        } else {
            0nat
        })
    }
}

/// Law: the name line paints text exactly once per display tint, and every
/// painted span is the card's name. Since a card with no identity colors
/// still gets one display tint, its name is printed exactly once, never
/// zero times.
pub proof fn lemma_name_painted_once_per_tint(name: Seq<char>, tints: Seq<Tint>)
    ensures
        tinted_count(name_spans_spec(name, tints)) == tints.len(),
        forall|k: int|
            0 <= k < name_spans_spec(name, tints).len() && (#[trigger] name_spans_spec(
                name,
                tints,
            )[k]).1 is Tinted ==> name_spans_spec(name, tints)[k].0 == name,
    decreases tints.len(),
{
    if tints.len() > 0 {
        lemma_name_painted_once_per_tint(name, tints.drop_last());
        let prev = name_spans_spec(name, tints.drop_last());
        let cur = name_spans_spec(name, tints);
        assert(cur.drop_last().drop_last() =~= prev);
        assert(cur.last() == (name, Emphasis::Tinted(tints.last())));
        assert(cur.drop_last().last() == (" "@, Emphasis::Plain));
        assert(tinted_count(cur.drop_last()) == tinted_count(prev));
        assert(tinted_count(cur) == tints.len());
        assert forall|k: int|
            0 <= k < cur.len() && (#[trigger] cur[k]).1 is Tinted implies cur[k].0 == name by {
            if k < prev.len() {
                assert(cur[k] == prev[k]);
            }
        }
    } else {
        let cur = name_spans_spec(name, tints);
        assert(cur.drop_last() =~= Seq::<(Seq<char>, Emphasis)>::empty());
        assert(cur.last() == ("Card name:"@, Emphasis::Plain));
        assert(tinted_count(Seq::<(Seq<char>, Emphasis)>::empty()) == 0);
        assert(tinted_count(cur) == 0);
    }
}

} // verus!
