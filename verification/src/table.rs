//! A table of records keyed by a textual identifier. At most one record has
//! a given identifier, and the records are kept, and listed, in the
//! lexicographic order of their identifiers.

use crate::text::{compare, lemma_lex_irreflexive, lemma_lex_total, lemma_lex_transitive, lex_lt, Order};
use vstd::prelude::*;

verus! {

/// Whether each text of `s` comes strictly before all that follow it.
pub open spec fn strictly_sorted(s: Seq<Seq<char>>) -> bool {
    forall|i: int, j: int| 0 <= i < j < s.len() ==> lex_lt(#[trigger] s[i], #[trigger] s[j])
}

/// In a strictly sorted sequence no text occurs twice.
pub proof fn lemma_sorted_distinct(s: Seq<Seq<char>>)
    requires
        strictly_sorted(s),
    ensures
        forall|i: int, j: int| 0 <= i < s.len() && 0 <= j < s.len() && i != j ==> s[i] != s[j],
{
    assert forall|i: int, j: int| 0 <= i < s.len() && 0 <= j < s.len() && i != j implies s[i]
        != s[j] by {
        lemma_lex_irreflexive(s[i]);
        if i < j {
            assert(lex_lt(s[i], s[j]));
        } else {
            assert(lex_lt(s[j], s[i]));
        }
    }
}

/// Two strictly sorted sequences that hold the same texts are equal: the
/// order of a listing depends on nothing but the identifiers listed.
pub proof fn lemma_sorted_unique(a: Seq<Seq<char>>, b: Seq<Seq<char>>)
    requires
        strictly_sorted(a),
        strictly_sorted(b),
        forall|x: Seq<char>| a.contains(x) <==> b.contains(x),
    ensures
        a == b,
    decreases a.len(),
{
    if a.len() == 0 {
        if b.len() > 0 {
            assert(b.contains(b[0]));
            assert(a.contains(b[0]));
        }
        assert(a =~= b);
    } else {
        let la = a.last();
        assert(a.contains(a[0]));
        assert(b.contains(a[0]));
        assert(b.len() > 0);
        let lb = b.last();
        assert(a.contains(la));
        assert(b.contains(lb));
        // the two last items are each the greatest of the same set
        let ia = choose|i: int| 0 <= i < b.len() && b[i] == la;
        let ib = choose|i: int| 0 <= i < a.len() && a[i] == lb;
        lemma_lex_total(la, lb);
        if ia < b.len() - 1 {
            assert(lex_lt(b[ia], b[b.len() - 1]));
        }
        if ib < a.len() - 1 {
            assert(lex_lt(a[ib], a[a.len() - 1]));
        }
        assert(la == lb);
        let a1 = a.drop_last();
        let b1 = b.drop_last();
        lemma_sorted_distinct(a);
        lemma_sorted_distinct(b);
        assert forall|x: Seq<char>| a1.contains(x) <==> b1.contains(x) by {
            if a1.contains(x) {
                let i = choose|i: int| 0 <= i < a1.len() && a1[i] == x;
                assert(a[i] == x);
                assert(a.contains(x));
                let j = choose|j: int| 0 <= j < b.len() && b[j] == x;
                assert(j != b.len() - 1);
                assert(b1[j] == x);
            }
            if b1.contains(x) {
                let i = choose|i: int| 0 <= i < b1.len() && b1[i] == x;
                assert(b[i] == x);
                assert(b.contains(x));
                let j = choose|j: int| 0 <= j < a.len() && a[j] == x;
                assert(j != a.len() - 1);
                assert(a1[j] == x);
            }
        }
        assert(strictly_sorted(a1)) by {
            assert forall|i: int, j: int| 0 <= i < j < a1.len() implies lex_lt(
                #[trigger] a1[i],
                #[trigger] a1[j],
            ) by {
                assert(lex_lt(a[i], a[j]));
            }
        }
        assert(strictly_sorted(b1)) by {
            assert forall|i: int, j: int| 0 <= i < j < b1.len() implies lex_lt(
                #[trigger] b1[i],
                #[trigger] b1[j],
            ) by {
                assert(lex_lt(b[i], b[j]));
            }
        }
        lemma_sorted_unique(a1, b1);
        assert(a =~= a1.push(la));
        assert(b =~= b1.push(lb));
    }
}

/// Whether `s` lists exactly the identifiers in `ids`, in strictly ascending
/// order.
pub open spec fn is_listing_of(s: Seq<Seq<char>>, ids: Set<Seq<char>>) -> bool {
    strictly_sorted(s) && forall|x: Seq<char>| s.contains(x) <==> ids.contains(x)
}

/// The listing of a set of identifiers: all of them, each once, in strictly
/// ascending lexicographic order.
pub open spec fn sorted_listing(ids: Set<Seq<char>>) -> Seq<Seq<char>> {
    choose|s: Seq<Seq<char>>| is_listing_of(s, ids)
}

/// A sequence that lists a set in ascending order is the listing of it.
pub proof fn lemma_listing_is_sorted_listing(s: Seq<Seq<char>>, ids: Set<Seq<char>>)
    requires
        is_listing_of(s, ids),
    ensures
        s == sorted_listing(ids),
{
    let t = sorted_listing(ids);
    assert(is_listing_of(t, ids));
    lemma_sorted_unique(s, t);
}

/// One record of a table: an identifier and what is stored under it.
pub struct Row<V> {
    pub id: String,
    pub value: V,
}

/// Records keyed by identifier, unique and in lexicographic order.
pub struct Table<V> {
    rows: Vec<Row<V>>,
}

impl<V> Table<V> {
    /// The records in stored order, each as identifier and value.
    pub closed spec fn entries(&self) -> Seq<(Seq<char>, V)> {
        Seq::new(self.rows@.len(), |i: int| (self.rows@[i].id@, self.rows@[i].value))
    }

    /// The identifiers in stored order: the listing of the table.
    pub open spec fn ids(&self) -> Seq<Seq<char>> {
        Seq::new(self.entries().len(), |i: int| self.entries()[i].0)
    }

    /// The table's invariant: identifiers strictly ascending, hence unique.
    pub open spec fn wf(&self) -> bool {
        strictly_sorted(self.ids())
    }

    /// The table as a map from identifier to value.
    pub open spec fn view(&self) -> Map<Seq<char>, V> {
        Map::new(
            |k: Seq<char>| self.ids().contains(k),
            |k: Seq<char>| self.entries()[self.ids().index_of(k)].1,
        )
    }

    /// Each stored record is found in the map under its identifier.
    pub proof fn lemma_entry(&self, i: int)
        requires
            self.wf(),
            0 <= i < self.entries().len(),
        ensures
            self@.contains_key(self.entries()[i].0),
            self@[self.entries()[i].0] == self.entries()[i].1,
    {
        let ids = self.ids();
        assert(ids[i] == self.entries()[i].0);
        assert(ids.contains(ids[i]));
        lemma_sorted_distinct(ids);
        let j = ids.index_of(ids[i]);
        assert(0 <= j < ids.len() && ids[j] == ids[i]);
    }

    /// Two valid tables that hold the same records list them alike, in
    /// whatever order the records were put in.
    pub proof fn lemma_listing_by_contents(&self, other: &Table<V>)
        requires
            self.wf(),
            other.wf(),
            self@ == other@,
        ensures
            self.entries() == other.entries(),
    {
        let a = self.ids();
        let b = other.ids();
        assert forall|x: Seq<char>| a.contains(x) <==> b.contains(x) by {
            assert(a.contains(x) == self@.contains_key(x));
            assert(b.contains(x) == other@.contains_key(x));
        }
        lemma_sorted_unique(a, b);
        assert(self.entries().len() == a.len());
        assert(other.entries().len() == b.len());
        assert forall|i: int| 0 <= i < self.entries().len() implies self.entries()[i]
            == other.entries()[i] by {
            self.lemma_entry(i);
            other.lemma_entry(i);
            assert(a[i] == self.entries()[i].0);
            assert(b[i] == other.entries()[i].0);
        }
        assert(self.entries() =~= other.entries());
    }

    /// The identifiers of a valid table, in stored order, are the sorted
    /// listing of the identifiers it holds.
    pub proof fn lemma_ids_are_listing(&self)
        requires
            self.wf(),
        ensures
            self.ids() == sorted_listing(self@.dom()),
            is_listing_of(self.ids(), self@.dom()),
    {
        assert(is_listing_of(self.ids(), self@.dom()));
        lemma_listing_is_sorted_listing(self.ids(), self@.dom());
    }

    /// An empty table.
    pub fn new() -> (t: Self)
        ensures
            t.wf(),
            t.entries() == Seq::<(Seq<char>, V)>::empty(),
            t@ == Map::<Seq<char>, V>::empty(),
    {
        let t = Table { rows: Vec::new() };
        assert(t.entries() =~= Seq::<(Seq<char>, V)>::empty());
        assert(t@ =~= Map::<Seq<char>, V>::empty());
        t
    }

    /// The number of records.
    pub fn len(&self) -> (n: usize)
        ensures
            n == self.entries().len(),
    {
        self.rows.len()
    }

    /// The record at position `i` of the listing.
    pub fn row(&self, i: usize) -> (r: &Row<V>)
        requires
            i < self.entries().len(),
        ensures
            r.id@ == self.entries()[i as int].0,
            r.value == self.entries()[i as int].1,
    {
        &self.rows[i]
    }

    /// Where `id` stands in the listing, or would stand: the position of the
    /// first record whose identifier does not come before `id`, and whether
    /// that record has this identifier.
    fn position(&self, id: &str) -> (r: (usize, bool))
        requires
            self.wf(),
        ensures
            r.0 <= self.entries().len(),
            forall|k: int| 0 <= k < r.0 ==> lex_lt(#[trigger] self.ids()[k], id@),
            r.1 ==> r.0 < self.entries().len() && self.ids()[r.0 as int] == id@,
            !r.1 ==> forall|k: int|
                r.0 <= k < self.entries().len() ==> lex_lt(id@, #[trigger] self.ids()[k]),
            r.1 == self@.contains_key(id@),
    {
        let mut i: usize = 0;
        let mut found = false;
        while i < self.rows.len()
            invariant_except_break
                !found,
            invariant
                self.wf(),
                i <= self.rows@.len(),
                forall|k: int| 0 <= k < i ==> lex_lt(#[trigger] self.ids()[k], id@),
            ensures
                i <= self.rows@.len(),
                forall|k: int| 0 <= k < i ==> lex_lt(#[trigger] self.ids()[k], id@),
                found ==> i < self.rows@.len() && self.ids()[i as int] == id@,
                !found ==> forall|k: int|
                    i <= k < self.rows@.len() ==> lex_lt(id@, #[trigger] self.ids()[k]),
            decreases self.rows@.len() - i,
        {
            let o = compare(self.rows[i].id.as_str(), id);
            assert(self.ids()[i as int] == self.rows@[i as int].id@);
            match o {
                Order::Less => {
                    i += 1;
                },
                Order::Equal => {
                    found = true;
                    break ;
                },
                Order::Greater => {
                    proof {
                        assert forall|k: int| i <= k < self.rows@.len() implies lex_lt(
                            id@,
                            #[trigger] self.ids()[k],
                        ) by {
                            if k > i {
                                assert(lex_lt(self.ids()[i as int], self.ids()[k]));
                                lemma_lex_transitive(id@, self.ids()[i as int], self.ids()[k]);
                            }
                        }
                    }
                    break ;
                },
            }
        }
        proof {
            let ids = self.ids();
            if found {
                assert(ids.contains(id@));
            } else {
                lemma_lex_irreflexive(id@);
                if ids.contains(id@) {
                    let k = choose|k: int| 0 <= k < ids.len() && ids[k] == id@;
                    if k < i {
                        assert(lex_lt(ids[k], id@));
                    } else {
                        assert(lex_lt(id@, ids[k]));
                    }
                }
            }
        }
        (i, found)
    }

    /// Whether a record with this identifier exists.
    pub fn contains(&self, id: &str) -> (b: bool)
        requires
            self.wf(),
        ensures
            b == self@.contains_key(id@),
    {
        let (_, found) = self.position(id);
        found
    }

    /// The value stored under `id`, if there is one.
    pub fn get(&self, id: &str) -> (r: Option<&V>)
        requires
            self.wf(),
        ensures
            r is Some == self@.contains_key(id@),
            r matches Some(v) ==> *v == self@[id@],
    {
        let (i, found) = self.position(id);
        if found {
            proof {
                self.lemma_entry(i as int);
            }
            Some(&self.rows[i].value)
        } else {
            None
        }
    }

    /// Puts a new record in. Where the identifier is already taken, nothing
    /// is changed and the result is `false`.
    pub fn insert(&mut self, id: String, value: V) -> (inserted: bool)
        requires
            old(self).wf(),
        ensures
            final(self).wf(),
            inserted == !old(self)@.contains_key(id@),
            inserted ==> final(self)@ == old(self)@.insert(id@, value),
            !inserted ==> final(self).entries() == old(self).entries(),
            !inserted ==> final(self)@ == old(self)@,
    {
        let (i, found) = self.position(id.as_str());
        if found {
            return false;
        }
        let ghost before = *self;
        let ghost key = id@;
        self.rows.insert(i, Row { id, value });
        proof {
            let old_ids = before.ids();
            let new_ids = self.ids();
            assert(self.entries() =~= before.entries().insert(i as int, (key, value)));
            assert(new_ids =~= old_ids.insert(i as int, key));
            assert forall|a: int, b: int| 0 <= a < b < new_ids.len() implies lex_lt(
                #[trigger] new_ids[a],
                #[trigger] new_ids[b],
            ) by {
                if b < i {
                    assert(lex_lt(old_ids[a], old_ids[b]));
                } else if b == i {
                    assert(lex_lt(old_ids[a], key));
                } else if a < i {
                    assert(lex_lt(old_ids[a], old_ids[b - 1]));
                } else if a == i {
                    assert(lex_lt(key, old_ids[b - 1]));
                } else {
                    assert(lex_lt(old_ids[a - 1], old_ids[b - 1]));
                }
            }
            assert(self.wf());
            lemma_sorted_distinct(new_ids);
            lemma_sorted_distinct(old_ids);
            assert forall|k: Seq<char>| #[trigger]
                self@.contains_key(k) == before@.insert(key, value).contains_key(k) by {
                if new_ids.contains(k) {
                    let a = choose|a: int| 0 <= a < new_ids.len() && new_ids[a] == k;
                    if a < i {
                        assert(old_ids[a] == k);
                    } else if a > i {
                        assert(old_ids[a - 1] == k);
                    }
                }
                if old_ids.contains(k) {
                    let a = choose|a: int| 0 <= a < old_ids.len() && old_ids[a] == k;
                    if a < i {
                        assert(new_ids[a] == k);
                    } else {
                        assert(new_ids[a + 1] == k);
                    }
                }
                if k == key {
                    assert(new_ids[i as int] == k);
                }
            }
            assert forall|k: Seq<char>| self@.contains_key(k) implies #[trigger] self@[k]
                == before@.insert(key, value)[k] by {
                let a = new_ids.index_of(k);
                assert(0 <= a < new_ids.len() && new_ids[a] == k);
                self.lemma_entry(a);
                if a < i {
                    before.lemma_entry(a);
                } else if a > i {
                    before.lemma_entry(a - 1);
                }
            }
            assert(self@ =~= before@.insert(key, value));
        }
        true
    }

    /// Replaces the value stored under `id`. Where no such record exists,
    /// nothing is changed and the result is `false`.
    pub fn update(&mut self, id: &str, value: V) -> (updated: bool)
        requires
            old(self).wf(),
        ensures
            final(self).wf(),
            updated == old(self)@.contains_key(id@),
            updated ==> final(self)@ == old(self)@.insert(id@, value),
            final(self).ids() == old(self).ids(),
            !updated ==> final(self).entries() == old(self).entries(),
            !updated ==> final(self)@ == old(self)@,
    {
        let (i, found) = self.position(id);
        if !found {
            return false;
        }
        let ghost before = *self;
        let row = self.rows.remove(i);
        self.rows.insert(i, Row { id: row.id, value });
        proof {
            let ids = before.ids();
            assert(self.entries() =~= before.entries().update(i as int, (id@, value)));
            assert(self.ids() =~= ids);
            lemma_sorted_distinct(ids);
            assert forall|k: Seq<char>| self@.contains_key(k) implies #[trigger] self@[k]
                == before@.insert(id@, value)[k] by {
                let a = ids.index_of(k);
                assert(0 <= a < ids.len() && ids[a] == k);
                self.lemma_entry(a);
                before.lemma_entry(a);
            }
            assert(ids.contains(id@));
            assert(self@ =~= before@.insert(id@, value));
        }
        true
    }

    /// Deletes the record stored under `id` and says whether there was one.
    pub fn remove(&mut self, id: &str) -> (removed: bool)
        requires
            old(self).wf(),
        ensures
            final(self).wf(),
            removed == old(self)@.contains_key(id@),
            final(self)@ == old(self)@.remove(id@),
            !removed ==> final(self).entries() == old(self).entries(),
    {
        let (i, found) = self.position(id);
        if !found {
            assert(self@ =~= self@.remove(id@));
            return false;
        }
        let ghost before = *self;
        self.rows.remove(i);
        proof {
            let old_ids = before.ids();
            let new_ids = self.ids();
            assert(self.entries() =~= before.entries().remove(i as int));
            assert(new_ids =~= old_ids.remove(i as int));
            assert forall|a: int, b: int| 0 <= a < b < new_ids.len() implies lex_lt(
                #[trigger] new_ids[a],
                #[trigger] new_ids[b],
            ) by {
                let a0 = if a < i { a } else { a + 1 };
                let b0 = if b < i { b } else { b + 1 };
                assert(lex_lt(old_ids[a0], old_ids[b0]));
            }
            lemma_sorted_distinct(old_ids);
            lemma_sorted_distinct(new_ids);
            assert forall|k: Seq<char>| #[trigger]
                self@.contains_key(k) == before@.remove(id@).contains_key(k) by {
                if new_ids.contains(k) {
                    let a = choose|a: int| 0 <= a < new_ids.len() && new_ids[a] == k;
                    let a0 = if a < i { a } else { a + 1 };
                    assert(old_ids[a0] == k);
                }
                if old_ids.contains(k) && k != id@ {
                    let a = choose|a: int| 0 <= a < old_ids.len() && old_ids[a] == k;
                    if a < i {
                        assert(new_ids[a] == k);
                    } else {
                        assert(new_ids[a - 1] == k);
                    }
                }
            }
            assert forall|k: Seq<char>| self@.contains_key(k) implies #[trigger] self@[k]
                == before@.remove(id@)[k] by {
                let a = new_ids.index_of(k);
                assert(0 <= a < new_ids.len() && new_ids[a] == k);
                self.lemma_entry(a);
                let a0 = if a < i { a } else { a + 1 };
                before.lemma_entry(a0);
            }
            assert(self@ =~= before@.remove(id@));
        }
        true
    }
}

} // verus!
