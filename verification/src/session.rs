//! The session's only state: for each category, the identifiers of the
//! cards already drawn and the exclusion clause built from them, so that a
//! later query in the same category never draws a seen card again.

use vstd::prelude::*;
use vstd::string::StringExecFns;
use crate::query::Category;
use crate::query::contains_seq;
use crate::query::query_spec;

verus! {

/// The query fragment that excludes one drawn card.
pub open spec fn fragment_spec(id: Seq<char>) -> Seq<char> {
    "-oracle_id:"@ + id + " "@
}

/// The exclusion clause for a list of drawn identifiers: one fragment per
/// identifier, in the order they were drawn.
pub open spec fn exclusion_spec(ids: Seq<Seq<char>>) -> Seq<char>
    decreases ids.len(),
{
    if ids.len() == 0 {
        Seq::<char>::empty()
    } else {
        exclusion_spec(ids.drop_last()) + fragment_spec(ids.last())
    }
}

/// Per-process session state: what was already drawn in each category.
/// Creatures and equipment are tracked independently.
pub struct Session {
    creature_ids: Vec<String>,
    creature_clause: String,
    equipment_ids: Vec<String>,
    equipment_clause: String,
}

impl Session {
    /// The identifiers drawn so far in one category, oldest first.
    pub closed spec fn ids_of(self, cat: Category) -> Seq<Seq<char>> {
        match cat {
            Category::Creature => self.creature_ids.deep_view(),
            Category::Equipment => self.equipment_ids.deep_view(),
        }
    }

    /// The exclusion clause for one category.
    pub closed spec fn clause_of(self, cat: Category) -> Seq<char> {
        match cat {
            Category::Creature => self.creature_clause@,
            Category::Equipment => self.equipment_clause@,
        }
    }

    /// Each clause is exactly the exclusion clause of its identifier list,
    /// and no identifier was recorded twice.
    pub closed spec fn wf(self) -> bool {
        &&& self.creature_clause@ == exclusion_spec(self.creature_ids.deep_view())
        &&& self.equipment_clause@ == exclusion_spec(self.equipment_ids.deep_view())
        &&& (forall|i: int, j: int|
            0 <= i < j < self.creature_ids.deep_view().len() ==> self.creature_ids.deep_view()[i]
                != self.creature_ids.deep_view()[j])
        &&& (forall|i: int, j: int|
            0 <= i < j < self.equipment_ids.deep_view().len() ==> self.equipment_ids.deep_view()[i]
                != self.equipment_ids.deep_view()[j])
    }

    /// This identifier was already drawn in this category.
    pub open spec fn has_seen(self, cat: Category, id: Seq<char>) -> bool {
        self.ids_of(cat).contains(id)
    }

    /// A fresh session: nothing drawn, both clauses empty.
    pub fn new() -> (s: Session)
        ensures
            s.wf(),
            s.ids_of(Category::Creature) == Seq::<Seq<char>>::empty(),
            s.ids_of(Category::Equipment) == Seq::<Seq<char>>::empty(),
            s.clause_of(Category::Creature) == Seq::<char>::empty(),
            s.clause_of(Category::Equipment) == Seq::<char>::empty(),
    {
        let s = Session {
            creature_ids: Vec::new(),
            creature_clause: String::new(),
            equipment_ids: Vec::new(),
            equipment_clause: String::new(),
        };
        proof {
            assert(s.creature_ids.deep_view() =~= Seq::<Seq<char>>::empty());
            assert(s.equipment_ids.deep_view() =~= Seq::<Seq<char>>::empty());
        }
        s
    }

    /// The exclusion clause to splice into the next query of a category.
    pub fn exclusion_clause(&self, cat: Category) -> (c: &String)
        ensures
            c@ == self.clause_of(cat),
    {
        match cat {
            Category::Creature => &self.creature_clause,
            Category::Equipment => &self.equipment_clause,
        }
    }

    /// Record one successful draw: if the identifier is new in this
    /// category, remember it and extend the category's exclusion clause by
    /// its fragment; a repeated identifier changes nothing.
    pub fn record_draw(&mut self, cat: Category, id: &String)
        requires
            old(self).wf(),
        ensures
            final(self).wf(),
            old(self).has_seen(cat, id@) ==> *final(self) == *old(self),
            !old(self).has_seen(cat, id@) ==> final(self).ids_of(cat) == old(self).ids_of(
                cat,
            ).push(id@) && final(self).clause_of(cat) == old(self).clause_of(cat)
                + fragment_spec(id@),
            forall|c: Category|
                c != cat ==> final(self).ids_of(c) == old(self).ids_of(c)
                    && final(self).clause_of(c) == old(self).clause_of(c),
    {
        match cat {
            Category::Creature => {
                if !contains_string(&self.creature_ids, id) {
                    let ghost old_ids = self.creature_ids.deep_view();
                    let ghost old_clause = self.creature_clause@;
                    self.creature_ids.push(id.clone());
                    self.creature_clause.append("-oracle_id:");
                    self.creature_clause.append(id.as_str());
                    self.creature_clause.append(" ");
                    proof {
                        assert(self.creature_ids.deep_view() =~= old_ids.push(id@));
                        lemma_exclusion_push(old_ids, id@);
                        assert(self.creature_clause@ =~= old_clause + fragment_spec(id@));
                    }
                }
            },
            Category::Equipment => {
                if !contains_string(&self.equipment_ids, id) {
                    let ghost old_ids = self.equipment_ids.deep_view();
                    let ghost old_clause = self.equipment_clause@;
                    self.equipment_ids.push(id.clone());
                    self.equipment_clause.append("-oracle_id:");
                    self.equipment_clause.append(id.as_str());
                    self.equipment_clause.append(" ");
                    proof {
                        assert(self.equipment_ids.deep_view() =~= old_ids.push(id@));
                        lemma_exclusion_push(old_ids, id@);
                        assert(self.equipment_clause@ =~= old_clause + fragment_spec(id@));
                    }
                }
            },
        }
    }
}

/// Whether a list of identifiers already holds this one.
fn contains_string(ids: &Vec<String>, id: &String) -> (b: bool)
    ensures
        b == ids.deep_view().contains(id@),
{
    let mut i: usize = 0;
    while i < ids.len()
        invariant
            i <= ids@.len(),
            forall|j: int| 0 <= j < i ==> ids.deep_view()[j] != id@,
        decreases ids@.len() - i,
    {
        if ids[i].eq(id) {
            proof {
                assert(ids.deep_view()[i as int] == id@);
            }
            return true;
        }
        i = i + 1;
    }
    proof {
        if ids.deep_view().contains(id@) {
            let j = choose|j: int| 0 <= j < ids.deep_view().len() && ids.deep_view()[j] == id@;
            assert(false);
        }
    }
    false
}

/// Appending one identifier extends the exclusion clause by its fragment.
proof fn lemma_exclusion_push(ids: Seq<Seq<char>>, id: Seq<char>)
    ensures
        exclusion_spec(ids.push(id)) == exclusion_spec(ids) + fragment_spec(id),
{
    assert(ids.push(id).drop_last() =~= ids);
    assert(ids.push(id).last() == id);
}

/// Law: distinct identifiers give distinct exclusion fragments, so the
/// clause of a session that drew N distinct cards holds exactly N distinct
/// fragments, one per identifier.
pub proof fn lemma_fragment_injective(a: Seq<char>, b: Seq<char>)
    requires
        fragment_spec(a) == fragment_spec(b),
    ensures
        a == b,
{
    reveal_strlit("-oracle_id:");
    reveal_strlit(" ");
    assert(fragment_spec(a).len() == "-oracle_id:"@.len() + a.len() + " "@.len());
    assert(fragment_spec(b).len() == "-oracle_id:"@.len() + b.len() + " "@.len());
    assert(a.len() == b.len());
    assert(fragment_spec(a).subrange(11, 11 + a.len() as int) =~= a);
    assert(fragment_spec(b).subrange(11, 11 + b.len() as int) =~= b);
}

/// Law: the next query built for a category contains one exclusion
/// fragment for every identifier drawn in it so far, whatever the mana
/// value and the funny flag.
pub proof fn lemma_query_excludes_all_seen(
    cat: Category,
    cmc: u32,
    ids: Seq<Seq<char>>,
    funny: bool,
)
    ensures
        forall|j: int|
            0 <= j < ids.len() ==> contains_seq(
                query_spec(cat, cmc, exclusion_spec(ids), funny),
                #[trigger] fragment_spec(ids[j]),
            ),
{
    assert forall|j: int| 0 <= j < ids.len() implies contains_seq(
        query_spec(cat, cmc, exclusion_spec(ids), funny),
        #[trigger] fragment_spec(ids[j]),
    ) by {
        lemma_exclusion_contains(ids, j);
        let a = crate::query::category_clause(cat) + crate::query::comparison(cat)
            + crate::query::dec_spec(cmc as nat) + " "@;
        lemma_contains_concat_right(a, exclusion_spec(ids), fragment_spec(ids[j]));
        lemma_contains_concat_left(a + exclusion_spec(ids), " "@, fragment_spec(ids[j]));
        lemma_contains_concat_left(
            a + exclusion_spec(ids) + " "@,
            crate::query::funny_clause(funny),
            fragment_spec(ids[j]),
        );
        assert(query_spec(cat, cmc, exclusion_spec(ids), funny) =~= a + exclusion_spec(ids) + " "@
            + crate::query::funny_clause(funny));
    }
}

/// The exclusion clause of a list contains each identifier's fragment.
proof fn lemma_exclusion_contains(ids: Seq<Seq<char>>, j: int)
    requires
        0 <= j < ids.len(),
    ensures
        contains_seq(exclusion_spec(ids), fragment_spec(ids[j])),
    decreases ids.len(),
{
    let f = fragment_spec(ids[j]);
    if j == ids.len() - 1 {
        let e = exclusion_spec(ids.drop_last());
        let k = e.len() as int;
        assert((e + f).subrange(k, k + f.len()) =~= f);
        assert(contains_seq(e + f, f));
    } else {
        lemma_exclusion_contains(ids.drop_last(), j);
        assert(ids.drop_last()[j] == ids[j]);
        lemma_contains_concat_left(
            exclusion_spec(ids.drop_last()),
            fragment_spec(ids.last()),
            f,
        );
    }
}

/// Containment survives extending the text on the right.
proof fn lemma_contains_concat_left(a: Seq<char>, b: Seq<char>, s: Seq<char>)
    requires
        contains_seq(a, s),
    ensures
        contains_seq(a + b, s),
{
    let k = choose|k: int| 0 <= k && k + s.len() <= a.len() && #[trigger] a.subrange(
        k,
        k + s.len(),
    ) == s;
    assert((a + b).subrange(k, k + s.len()) =~= a.subrange(k, k + s.len()));
}

/// Containment survives extending the text on the left.
proof fn lemma_contains_concat_right(a: Seq<char>, b: Seq<char>, s: Seq<char>)
    requires
        contains_seq(b, s),
    ensures
        contains_seq(a + b, s),
{
    let k = choose|k: int| 0 <= k && k + s.len() <= b.len() && #[trigger] b.subrange(
        k,
        k + s.len(),
    ) == s;
    assert((a + b).subrange(a.len() + k, a.len() + k + s.len()) =~= b.subrange(k, k + s.len()));
}

} // verus!
