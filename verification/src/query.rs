//! Building the search expression sent to the remote card database: the
//! category template, the mana-value comparison, the accumulated exclusion
//! clause and the funny-card filter.

use vstd::prelude::*;
use vstd::string::StringExecFns;

verus! {

/// The kind of card a query asks for.
#[derive(Clone, Copy, PartialEq, Eq, Structural, Debug)]
pub enum Category {
    Creature,
    Equipment,
}

/// `s` occurs in `q` as a contiguous run.
pub open spec fn contains_seq(q: Seq<char>, s: Seq<char>) -> bool {
    exists|k: int| 0 <= k && k + s.len() <= q.len() && #[trigger] q.subrange(k, k + s.len()) == s
}

/// `s` is the final run of `q`.
pub open spec fn ends_with(q: Seq<char>, s: Seq<char>) -> bool {
    s.len() <= q.len() && q.subrange(q.len() - s.len(), q.len() as int) == s
}

pub open spec fn digit_char(d: nat) -> char {
    if d == 0 {
        '0'
    } else if d == 1 {
        '1'
    } else if d == 2 {
        '2'
    } else if d == 3 {
        '3'
    } else if d == 4 {
        '4'
    } else if d == 5 {
        '5'
    } else if d == 6 {
        '6'
    } else if d == 7 {
        '7'
    } else if d == 8 {
        '8'
    } else {
        '9'
    }
}

/// The decimal digits of `n`, most significant first, no sign and no
/// leading zeros (a single `0` for zero).
pub open spec fn dec_spec(n: nat) -> Seq<char>
    decreases n,
{
    if n < 10 {
        seq![digit_char(n)]
    } else {
        dec_spec(n / 10).push(digit_char(n % 10))
    }
}

/// The fixed part of a query: match cards typed as the category (front
/// face, or a back face whose type line names it), exclude double-faced,
/// purely digital and reversible printings, and introduce the mana-value
/// keyword.
pub open spec fn category_clause(cat: Category) -> Seq<char> {
    match cat {
        Category::Creature => "((-is:dfc AND t:creature) OR (t:/.*Creature.*\\//)) -is:digital -is:reversible cmc"@,
        Category::Equipment => "((-is:dfc AND t:equipment) OR (t:/.*Equipment.*\\//)) -is:digital -is:reversible cmc"@,
    }
}

/// How the mana value is compared: creatures must match it exactly, the
/// cheaper equipment draw must come in strictly below it.
pub open spec fn comparison(cat: Category) -> Seq<char> {
    match cat {
        Category::Creature => ":"@,
        Category::Equipment => "<"@,
    }
}

/// The funny-card filter: present exactly when funny cards are not allowed.
pub open spec fn funny_clause(funny: bool) -> Seq<char> {
    if funny {
        Seq::<char>::empty()
    } else {
        "-is:funny"@
    }
}

/// The whole search expression for one draw.
pub open spec fn query_spec(cat: Category, cmc: u32, seen: Seq<char>, funny: bool) -> Seq<char> {
    category_clause(cat) + comparison(cat) + dec_spec(cmc as nat) + " "@ + seen + " "@
        + funny_clause(funny)
}

/// Law: for every mana value, the creature query compares it with exact
/// equality (`cmc:` followed by its digits) and the equipment query with
/// strict less-than (`cmc<` followed by its digits).
pub proof fn lemma_query_comparison(cat: Category, cmc: u32, seen: Seq<char>, funny: bool)
    ensures
        cat is Creature ==> contains_seq(
            query_spec(cat, cmc, seen, funny),
            "cmc:"@ + dec_spec(cmc as nat),
        ),
        cat is Equipment ==> contains_seq(
            query_spec(cat, cmc, seen, funny),
            "cmc<"@ + dec_spec(cmc as nat),
        ),
{
    reveal_strlit("((-is:dfc AND t:creature) OR (t:/.*Creature.*\\//)) -is:digital -is:reversible cmc");
    reveal_strlit("((-is:dfc AND t:equipment) OR (t:/.*Equipment.*\\//)) -is:digital -is:reversible cmc");
    reveal_strlit("cmc:");
    reveal_strlit("cmc<");
    reveal_strlit(":");
    reveal_strlit("<");
    let q = query_spec(cat, cmc, seen, funny);
    let needle = match cat {
        Category::Creature => "cmc:"@ + dec_spec(cmc as nat),
        Category::Equipment => "cmc<"@ + dec_spec(cmc as nat),
    };
    let k = category_clause(cat).len() - 3;
    assert(q.subrange(k, k + needle.len()) =~= needle);
    assert(contains_seq(q, needle));
}

/// Law: the funny-card filter stands at the end of the query exactly when
/// funny cards are not allowed, and never otherwise.
pub proof fn lemma_funny_filter(cat: Category, cmc: u32, seen: Seq<char>, funny: bool)
    ensures
        ends_with(query_spec(cat, cmc, seen, funny), "-is:funny"@) <==> !funny,
        !funny ==> contains_seq(query_spec(cat, cmc, seen, funny), "-is:funny"@),
{
    reveal_strlit("-is:funny");
    reveal_strlit(" ");
    let q = query_spec(cat, cmc, seen, funny);
    let f = "-is:funny"@;
    if funny {
        assert(q.len() > 0 && q.last() == ' ');
        if f.len() <= q.len() {
            assert(q.subrange(q.len() - f.len(), q.len() as int)[f.len() - 1] == q.last());
            assert(q.subrange(q.len() - f.len(), q.len() as int) != f);
        }
    } else {
        assert(q.subrange(q.len() - f.len(), q.len() as int) =~= f);
        let k = q.len() - f.len();
        assert(q.subrange(k, k + f.len()) == f);
        assert(contains_seq(q, f));
    }
}

fn digit_str(d: u32) -> (s: &'static str)
    requires
        d < 10,
    ensures
        s@ == seq![digit_char(d as nat)],
{
    let s = if d == 0 {
        "0"
    } else if d == 1 {
        "1"
    } else if d == 2 {
        "2"
    } else if d == 3 {
        "3"
    } else if d == 4 {
        "4"
    } else if d == 5 {
        "5"
    } else if d == 6 {
        "6"
    } else if d == 7 {
        "7"
    } else if d == 8 {
        "8"
    } else {
        "9"
    };
    proof {
        reveal_strlit("0");
        reveal_strlit("1");
        reveal_strlit("2");
        reveal_strlit("3");
        reveal_strlit("4");
        reveal_strlit("5");
        reveal_strlit("6");
        reveal_strlit("7");
        reveal_strlit("8");
        reveal_strlit("9");
        assert(s@ =~= seq![digit_char(d as nat)]);
    }
    s
}

/// Render a mana value in decimal.
pub fn u32_to_dec(n: u32) -> (s: String)
    ensures
        s@ == dec_spec(n as nat),
    decreases n,
{
    if n < 10 {
        String::from_str(digit_str(n))
    } else {
        let mut s = u32_to_dec(n / 10);
        s.append(digit_str(n % 10));
        proof {
            assert(s@ =~= dec_spec(n as nat / 10).push(digit_char(n as nat % 10)));
        }
        s
    }
}

/// Assemble the search expression for one draw: the category template, the
/// mana-value comparison, the category's accumulated exclusion clause, and
/// the funny-card filter when funny cards are not allowed.
pub fn build_query(cat: Category, cmc: u32, seen: &String, funny: bool) -> (q: String)
    ensures
        q@ == query_spec(cat, cmc, seen@, funny),
{
    let mut q = String::new();
    match cat {
        Category::Creature => {
            q.append(
                "((-is:dfc AND t:creature) OR (t:/.*Creature.*\\//)) -is:digital -is:reversible cmc",
            );
            q.append(":");
        },
        Category::Equipment => {
            q.append(
                "((-is:dfc AND t:equipment) OR (t:/.*Equipment.*\\//)) -is:digital -is:reversible cmc",
            );
            q.append("<");
        },
    }
    let num = u32_to_dec(cmc);
    q.append(num.as_str());
    q.append(" ");
    q.append(seen.as_str());
    q.append(" ");
    if !funny {
        q.append("-is:funny");
    }
    proof {
        assert(q@ =~= query_spec(cat, cmc, seen@, funny));
    }
    q
}

} // verus!
