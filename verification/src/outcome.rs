//! Classifying the remote service's reply into the session's three
//! outcomes, and applying an outcome to the session: record a successful
//! draw, and lay out what the user is shown.

use vstd::prelude::*;
use vstd::string::StringExecFns;
use crate::card::Card;
use crate::present::Span;
use crate::present::card_name_line;
use crate::present::failure_lines;
use crate::present::is_failure_report;
use crate::present::is_link_line;
use crate::present::is_name_line;
use crate::present::is_no_match_line;
use crate::present::link_line;
use crate::present::no_match_line;
use crate::query::Category;
use crate::session::Session;
use crate::session::fragment_spec;

verus! {

/// What came back from the remote draw, reduced to plain values: a card, a
/// remote-reported error with its diagnostic detail, or a failure with no
/// such detail (transport, decoding, and the like).
pub enum RemoteReply {
    Found(Card),
    ErrorDetail(String),
    TransportFailure,
}

/// The three outcomes the session distinguishes.
pub enum Outcome {
    /// A card was drawn.
    Success(Card),
    /// The remote service confirmed that zero cards matched: an expected
    /// outcome, reported in its own words, never a fault.
    NoMatch,
    /// Anything else: reported generically.
    Failure,
}

/// The one diagnostic sentence by which the remote service reports an
/// empty result. Any other wording falls through to the generic failure.
pub open spec fn no_match_detail() -> Seq<char> {
    "0 cards matched this search, a random card could not be returned."@
}

/// How a reply is classified: a card is a success, the exact empty-result
/// sentence is a no-match, and everything else is a failure.
pub open spec fn classify_spec(reply: RemoteReply) -> Outcome {
    match reply {
        RemoteReply::Found(c) => Outcome::Success(c),
        RemoteReply::ErrorDetail(d) => if d@ == no_match_detail() {
            Outcome::NoMatch
        } else {
            Outcome::Failure
        },
        RemoteReply::TransportFailure => Outcome::Failure,
    }
}

/// The identifier of a successfully drawn card, where there is one.
pub open spec fn drawn_id(outcome: Outcome) -> Seq<char> {
    ((outcome->Success_0).oracle_id->Some_0)@
}

/// Classify one reply.
pub fn classify_reply(reply: RemoteReply) -> (o: Outcome)
    ensures
        o == classify_spec(reply),
{
    match reply {
        RemoteReply::Found(c) => Outcome::Success(c),
        RemoteReply::ErrorDetail(d) => {
            let sentence = String::from_str(
                "0 cards matched this search, a random card could not be returned.",
            );
            if d.eq(&sentence) {
                Outcome::NoMatch
            } else {
                Outcome::Failure
            }
        },
        RemoteReply::TransportFailure => Outcome::Failure,
    }
}

/// Apply one outcome to the session: a successful draw is recorded in its
/// category (unless cards are drawn with replacement) and rendered as the
/// name and link lines; an empty result and a failure leave the session
/// untouched and render their reports.
pub fn apply_outcome(session: &mut Session, cat: Category, outcome: Outcome, replacement: bool) -> (lines: Vec<
    Vec<Span>,
>)
    requires
        old(session).wf(),
        !replacement ==> (outcome matches Outcome::Success(c) ==> c.oracle_id is Some),
    ensures
        final(session).wf(),
        !(outcome matches Outcome::Success(_)) ==> *final(session) == *old(session),
        replacement ==> *final(session) == *old(session),
        outcome is Success && !replacement && old(session).has_seen(cat, drawn_id(outcome))
            ==> *final(session) == *old(session),
        outcome is Success && !replacement && !old(session).has_seen(cat, drawn_id(outcome))
            ==> final(session).ids_of(cat) == old(session).ids_of(cat).push(drawn_id(outcome))
            && final(session).clause_of(cat) == old(session).clause_of(cat) + fragment_spec(
            drawn_id(outcome),
        ) && (forall|c2: Category|
            c2 != cat ==> final(session).ids_of(c2) == old(session).ids_of(c2)
                && final(session).clause_of(c2) == old(session).clause_of(c2)),
        outcome matches Outcome::Success(c) ==> lines@.len() == 2 && is_name_line(lines@[0]@, c)
            && is_link_line(lines@[1]@, c),
        outcome is NoMatch ==> lines@.len() == 1 && is_no_match_line(lines@[0]@),
        outcome is Failure ==> is_failure_report(lines@),
{
    match outcome {
        Outcome::Success(card) => {
            if !replacement {
                match &card.oracle_id {
                    Some(id) => {
                        session.record_draw(cat, id);
                    },
                    None => {
                        proof {
                            assert(false);
                        }
                    },
                }
            }
            let first = card_name_line(&card);
            let second = link_line(&card);
            let mut lines: Vec<Vec<Span>> = Vec::new();
            lines.push(first);
            lines.push(second);
            lines
        },
        Outcome::NoMatch => {
            let mut lines: Vec<Vec<Span>> = Vec::new();
            lines.push(no_match_line());
            lines
        },
        Outcome::Failure => failure_lines(),
    }
}

} // verus!
