//! The run-scoped variable bag: a mapping from names to values, ordered by
//! key, written by interactions and read by swaps and command templating.
//! A repeated write to the same key overwrites (last write wins).

use vstd::prelude::*;

verus! {

/// Strict lexicographic order on character sequences.
pub open spec fn lex_lt(a: Seq<char>, b: Seq<char>) -> bool
    decreases a.len(),
{
    b.len() > 0 && (a.len() == 0 || a[0] < b[0] || (a[0] == b[0] && lex_lt(
        a.skip(1),
        b.skip(1),
    )))
}

pub proof fn lemma_lex_connected(a: Seq<char>, b: Seq<char>)
    requires
        !lex_lt(a, b),
        !lex_lt(b, a),
    ensures
        a == b,
    decreases a.len(),
{
    if a.len() == 0 && b.len() == 0 {
        assert(a =~= b);
    } else if a.len() > 0 && b.len() > 0 {
        assert(a[0] == b[0]);
        lemma_lex_connected(a.skip(1), b.skip(1));
        assert(a =~= seq![a[0]] + a.skip(1));
        assert(b =~= seq![b[0]] + b.skip(1));
    }
}

pub proof fn lemma_lex_irreflexive(a: Seq<char>)
    ensures
        !lex_lt(a, a),
    decreases a.len(),
{
    if a.len() > 0 {
        lemma_lex_irreflexive(a.skip(1));
    }
}

/// The entries of a bag as mathematical pairs.
pub open spec fn entry_views(es: Seq<(String, String)>) -> Seq<(Seq<char>, Seq<char>)> {
    es.map_values(|e: (String, String)| (e.0@, e.1@))
}

/// The mapping an ordered entry list denotes.
pub open spec fn entries_map(es: Seq<(Seq<char>, Seq<char>)>) -> Map<Seq<char>, Seq<char>>
    decreases es.len(),
{
    if es.len() == 0 {
        Map::empty()
    } else {
        entries_map(es.drop_last()).insert(es.last().0, es.last().1)
    }
}

/// Keys strictly ascending: sorted and free of duplicates.
pub open spec fn entries_sorted(es: Seq<(Seq<char>, Seq<char>)>) -> bool {
    forall|i: int, j: int| 0 <= i < j < es.len() ==> lex_lt(#[trigger] es[i].0, #[trigger] es[j].0)
}

/// Insertion into an ordered entry list, replacing an equal key.
pub open spec fn spec_insert_entry(
    es: Seq<(Seq<char>, Seq<char>)>,
    k: Seq<char>,
    v: Seq<char>,
) -> Seq<(Seq<char>, Seq<char>)>
    decreases es.len(),
{
    if es.len() == 0 {
        seq![(k, v)]
    } else if k == es[0].0 {
        seq![(k, v)] + es.skip(1)
    } else if lex_lt(k, es[0].0) {
        seq![(k, v)] + es
    } else {
        seq![es[0]] + spec_insert_entry(es.skip(1), k, v)
    }
}

/// The run-scoped name-to-value mapping, ordered by key.
#[derive(Debug, Clone)]
pub struct VarBag {
    entries: Vec<(String, String)>,
}

impl View for VarBag {
    type V = Map<Seq<char>, Seq<char>>;

    closed spec fn view(&self) -> Map<Seq<char>, Seq<char>> {
        entries_map(entry_views(self.entries@))
    }
}

impl VarBag {
    /// The entry list in ascending key order.
    pub closed spec fn entries_view(&self) -> Seq<(Seq<char>, Seq<char>)> {
        entry_views(self.entries@)
    }

    pub open spec fn wf(&self) -> bool {
        entries_sorted(self.entries_view())
    }

    /// The map is the one the ordered entry list denotes.
    pub open spec fn map_of_entries(&self) -> bool {
        self@ == entries_map(self.entries_view())
    }

    /// The empty bag.
    pub fn new() -> (r: VarBag)
        ensures
            r.wf(),
            r.entries_view() == Seq::<(Seq<char>, Seq<char>)>::empty(),
            r@ == Map::<Seq<char>, Seq<char>>::empty(),
    {
        let r = VarBag { entries: Vec::new() };
        proof {
            assert(r.entries_view() =~= Seq::<(Seq<char>, Seq<char>)>::empty());
        }
        r
    }

    pub fn len(&self) -> (r: usize)
        ensures
            r == self.entries_view().len(),
    {
        self.entries.len()
    }

    /// The entry at a position, in ascending key order.
    pub fn entry_at(&self, i: usize) -> (r: (&String, &String))
        requires
            i < self.entries_view().len(),
        ensures
            r.0@ == self.entries_view()[i as int].0,
            r.1@ == self.entries_view()[i as int].1,
    {
        let e = &self.entries[i];
        (&e.0, &e.1)
    }

    /// The value stored under `k`, if any.
    pub fn get(&self, k: &String) -> (r: Option<&String>)
        requires
            self.wf(),
        ensures
            match r {
                Some(v) => self@.contains_key(k@) && self@[k@] == v@,
                None => !self@.contains_key(k@),
            },
    {
        let mut i: usize = 0;
        while i < self.entries.len()
            invariant
                self.wf(),
                i <= self.entries.len(),
                forall|j: int| 0 <= j < i ==> self.entries_view()[j].0 != k@,
            decreases self.entries.len() - i,
        {
            if self.entries[i].0 == *k {
                proof {
                    lemma_entries_map_get(self.entries_view(), i as int);
                }
                return Some(&self.entries[i].1);
            }
            i = i + 1;
        }
        proof {
            lemma_entries_map_absent(self.entries_view(), k@);
        }
        None
    }

    /// Writes `v` under `k`, overwriting any previous value.
    pub fn insert(&mut self, k: String, v: String)
        requires
            old(self).wf(),
        ensures
            final(self).wf(),
            final(self)@ == old(self)@.insert(k@, v@),
            final(self).entries_view() == spec_insert_entry(old(self).entries_view(), k@, v@),
    {
        let ghost es0 = self.entries_view();
        let mut i: usize = 0;
        while i < self.entries.len() && key_lt(&self.entries[i].0, &k)
            invariant
                i <= self.entries.len(),
                self.entries_view() == es0,
                entries_sorted(es0),
                forall|j: int| 0 <= j < i ==> lex_lt(#[trigger] es0[j].0, k@),
            decreases self.entries.len() - i,
        {
            i = i + 1;
        }
        if i < self.entries.len() && self.entries[i].0 == k {
            self.entries.remove(i);
            self.entries.insert(i, (k, v));
            proof {
                assert(self.entries_view() =~= es0.update(i as int, (k@, v@)));
                lemma_insert_entry_at(es0, k@, v@, i as int);
                lemma_insert_map(es0, k@, v@);
                lemma_insert_sorted(es0, k@, v@);
            }
        } else {
            self.entries.insert(i, (k, v));
            proof {
                assert(self.entries_view() =~= es0.take(i as int) + seq![(k@, v@)] + es0.skip(
                    i as int,
                ));
                lemma_insert_entry_at(es0, k@, v@, i as int);
                lemma_insert_map(es0, k@, v@);
                lemma_insert_sorted(es0, k@, v@);
            }
        }
    }
}

/// Exact position of `spec_insert_entry`: scanning past all smaller keys.
proof fn lemma_insert_entry_at(es: Seq<(Seq<char>, Seq<char>)>, k: Seq<char>, v: Seq<char>, i: int)
    requires
        0 <= i <= es.len(),
        forall|j: int| 0 <= j < i ==> lex_lt(#[trigger] es[j].0, k),
        i < es.len() ==> !lex_lt(es[i].0, k),
    ensures
        i < es.len() && es[i].0 == k ==> spec_insert_entry(es, k, v) == es.update(i, (k, v)),
        !(i < es.len() && es[i].0 == k) ==> spec_insert_entry(es, k, v) == es.take(i) + seq![(k, v)]
            + es.skip(i),
    decreases es.len(),
{
    lemma_lex_irreflexive(k);
    if es.len() == 0 {
        assert(spec_insert_entry(es, k, v) =~= es.take(0) + seq![(k, v)] + es.skip(0));
    } else if i == 0 {
        if es[0].0 == k {
            assert(spec_insert_entry(es, k, v) =~= es.update(0, (k, v)));
        } else {
            if !lex_lt(k, es[0].0) {
                lemma_lex_connected(k, es[0].0);
            }
            assert(spec_insert_entry(es, k, v) =~= es.take(0) + seq![(k, v)] + es.skip(0));
        }
    } else {
        assert(lex_lt(es[0].0, k));
        assert(es[0].0 != k) by {
            if es[0].0 == k {
                lemma_lex_irreflexive(k);
            }
        }
        assert(!lex_lt(k, es[0].0)) by {
            lemma_lex_asymmetric(es[0].0, k);
        }
        lemma_insert_entry_at(es.skip(1), k, v, i - 1);
        if i < es.len() && es[i].0 == k {
            assert(es.skip(1).update(i - 1, (k, v)) =~= es.update(i, (k, v)).skip(1));
            assert(seq![es[0]] + es.update(i, (k, v)).skip(1) =~= es.update(i, (k, v)));
        } else {
            assert(es.skip(1).take(i - 1) =~= es.take(i).skip(1));
            assert(seq![es[0]] + (es.take(i).skip(1) + seq![(k, v)] + es.skip(1).skip(i - 1))
                =~= es.take(i) + seq![(k, v)] + es.skip(i));
        }
    }
}

pub proof fn lemma_lex_asymmetric(a: Seq<char>, b: Seq<char>)
    requires
        lex_lt(a, b),
    ensures
        !lex_lt(b, a),
    decreases a.len(),
{
    if b.len() > 0 && a.len() > 0 && a[0] == b[0] {
        lemma_lex_asymmetric(a.skip(1), b.skip(1));
    }
}

/// Ordered insertion preserves strict ordering of keys.
proof fn lemma_insert_sorted(es: Seq<(Seq<char>, Seq<char>)>, k: Seq<char>, v: Seq<char>)
    requires
        entries_sorted(es),
    ensures
        entries_sorted(spec_insert_entry(es, k, v)),
    decreases es.len(),
{
    if es.len() == 0 {
    } else if k == es[0].0 {
        let r = seq![(k, v)] + es.skip(1);
        assert forall|i: int, j: int| 0 <= i < j < r.len() implies lex_lt(
            #[trigger] r[i].0,
            #[trigger] r[j].0,
        ) by {
            if i > 0 {
                assert(r[i] == es[i]);
                assert(r[j] == es[j]);
            } else {
                assert(r[j] == es[j]);
                assert(lex_lt(es[0].0, es[j].0));
            }
        }
    } else if lex_lt(k, es[0].0) {
        let r = seq![(k, v)] + es;
        assert forall|i: int, j: int| 0 <= i < j < r.len() implies lex_lt(
            #[trigger] r[i].0,
            #[trigger] r[j].0,
        ) by {
            if i > 0 {
                assert(r[i] == es[i - 1]);
                assert(r[j] == es[j - 1]);
            } else if j > 1 {
                assert(r[j] == es[j - 1]);
                lemma_lex_transitive(k, es[0].0, es[j - 1].0);
            }
        }
    } else {
        assert(entries_sorted(es.skip(1))) by {
            assert(forall|i: int, j: int|
                0 <= i < j < es.skip(1).len() ==> es.skip(1)[i] == es[i + 1] && es.skip(1)[j]
                    == es[j + 1]);
        }
        lemma_insert_sorted(es.skip(1), k, v);
        if !lex_lt(es[0].0, k) {
            lemma_lex_connected(k, es[0].0);
        }
        let rest = spec_insert_entry(es.skip(1), k, v);
        let r = seq![es[0]] + rest;
        assert forall|i: int, j: int| 0 <= i < j < r.len() implies lex_lt(
            #[trigger] r[i].0,
            #[trigger] r[j].0,
        ) by {
            if i > 0 {
                assert(r[i] == rest[i - 1]);
                assert(r[j] == rest[j - 1]);
            } else {
                assert(r[j] == rest[j - 1]);
                lemma_insert_member(es.skip(1), k, v, j - 1);
                if rest[j - 1].0 == k {
                    assert(lex_lt(es[0].0, k));
                } else {
                    let w = choose|w: int|
                        0 <= w < es.skip(1).len() && es.skip(1)[w] == rest[j - 1];
                    assert(es.skip(1)[w] == es[w + 1]);
                    assert(lex_lt(es[0].0, es[w + 1].0));
                }
            }
        }
    }
}

/// Every entry of an insertion result is the new pair or an old entry.
proof fn lemma_insert_member(es: Seq<(Seq<char>, Seq<char>)>, k: Seq<char>, v: Seq<char>, j: int)
    requires
        0 <= j < spec_insert_entry(es, k, v).len(),
    ensures
        spec_insert_entry(es, k, v)[j].0 == k || exists|w: int|
            0 <= w < es.len() && es[w] == spec_insert_entry(es, k, v)[j],
    decreases es.len(),
{
    if es.len() == 0 {
    } else if k == es[0].0 {
        if j > 0 {
            assert(spec_insert_entry(es, k, v)[j] == es[j]);
        }
    } else if lex_lt(k, es[0].0) {
        if j > 0 {
            assert(spec_insert_entry(es, k, v)[j] == es[j - 1]);
        }
    } else {
        if j > 0 {
            lemma_insert_member(es.skip(1), k, v, j - 1);
            let r = spec_insert_entry(es.skip(1), k, v);
            if r[j - 1].0 != k {
                let w = choose|w: int| 0 <= w < es.skip(1).len() && es.skip(1)[w] == r[j - 1];
                assert(es[w + 1] == r[j - 1]);
            }
        } else {
            assert(spec_insert_entry(es, k, v)[0] == es[0]);
        }
    }
}

pub proof fn lemma_lex_transitive(a: Seq<char>, b: Seq<char>, c: Seq<char>)
    requires
        lex_lt(a, b),
        lex_lt(b, c),
    ensures
        lex_lt(a, c),
    decreases a.len() + b.len() + c.len(),
{
    if a.len() > 0 && b.len() > 0 && c.len() > 0 && a[0] == b[0] && b[0] == c[0] {
        lemma_lex_transitive(a.skip(1), b.skip(1), c.skip(1));
    }
}

/// Ordered insertion denotes map insertion.
proof fn lemma_insert_map(es: Seq<(Seq<char>, Seq<char>)>, k: Seq<char>, v: Seq<char>)
    requires
        entries_sorted(es),
    ensures
        entries_map(spec_insert_entry(es, k, v)) == entries_map(es).insert(k, v),
    decreases es.len(),
{
    if es.len() == 0 {
        assert(seq![(k, v)].drop_last() =~= es);
        assert(entries_map(spec_insert_entry(es, k, v)) == entries_map(es).insert(k, v));
    } else if k == es[0].0 {
        lemma_map_of_updated_head(es, k, v);
    } else if lex_lt(k, es[0].0) {
        assert forall|j: int| 0 <= j < es.len() implies (#[trigger] es[j].0) != k by {
            if j > 0 {
                lemma_lex_transitive(k, es[0].0, es[j].0);
            }
            if es[j].0 == k {
                lemma_lex_irreflexive(k);
            }
        }
        lemma_map_of_prefixed(es, k, v);
    } else {
        // neither equal nor below the head key: the head key is below k
        if !lex_lt(es[0].0, k) {
            lemma_lex_connected(k, es[0].0);
        }
        assert(entries_sorted(es.skip(1))) by {
            assert(forall|i: int, j: int|
                0 <= i < j < es.skip(1).len() ==> es.skip(1)[i] == es[i + 1] && es.skip(1)[j]
                    == es[j + 1]);
        }
        lemma_insert_map(es.skip(1), k, v);
        lemma_entries_map_unfold_head(es);
        let rest = spec_insert_entry(es.skip(1), k, v);
        assert forall|j: int| 0 <= j < rest.len() implies (#[trigger] rest[j].0) != es[0].0 by {
            lemma_insert_member(es.skip(1), k, v, j);
            if rest[j].0 == k {
                lemma_lex_irreflexive(k);
            } else {
                let w = choose|w: int| 0 <= w < es.skip(1).len() && es.skip(1)[w] == rest[j];
                assert(es.skip(1)[w] == es[w + 1]);
                assert(lex_lt(es[0].0, es[w + 1].0));
                lemma_lex_irreflexive(es[0].0);
            }
        }
        lemma_entries_map_unfold_head_general(es[0], rest);
        assert(spec_insert_entry(es, k, v) == seq![es[0]] + rest);
        let m = entries_map(es.skip(1));
        assert(m.insert(k, v).insert(es[0].0, es[0].1) =~= m.insert(es[0].0, es[0].1).insert(
            k,
            v,
        ));
        assert(entries_map(es) == m.insert(es[0].0, es[0].1));
        assert(entries_map(spec_insert_entry(es, k, v)) == entries_map(rest).insert(
            es[0].0,
            es[0].1,
        ));
        assert(entries_map(spec_insert_entry(es, k, v)) == entries_map(es).insert(k, v));
    }
}

proof fn lemma_map_of_updated_head(es: Seq<(Seq<char>, Seq<char>)>, k: Seq<char>, v: Seq<char>)
    requires
        entries_sorted(es),
        es.len() > 0,
        es[0].0 == k,
    ensures
        entries_map(seq![(k, v)] + es.skip(1)) == entries_map(es).insert(k, v),
{
    lemma_entries_map_unfold_head(es);
    assert forall|j: int| 0 <= j < es.skip(1).len() implies (#[trigger] es.skip(1)[j].0) != (
    k,
    v,
    ).0 by {
        assert(es.skip(1)[j] == es[j + 1]);
        assert(lex_lt(es[0].0, es[j + 1].0));
        lemma_lex_irreflexive(k);
    }
    lemma_entries_map_unfold_head_general((k, v), es.skip(1));
    lemma_entries_map_absent(es.skip(1), k);
    assert(entries_map(seq![(k, v)] + es.skip(1)) =~= entries_map(es).insert(k, v));
}

proof fn lemma_map_of_prefixed(es: Seq<(Seq<char>, Seq<char>)>, k: Seq<char>, v: Seq<char>)
    requires
        entries_sorted(es),
        forall|j: int| 0 <= j < es.len() ==> (#[trigger] es[j].0) != k,
    ensures
        entries_map(seq![(k, v)] + es) == entries_map(es).insert(k, v),
{
    lemma_entries_map_unfold_head_general((k, v), es);
    lemma_entries_map_absent(es, k);
    assert(entries_map(seq![(k, v)] + es) =~= entries_map(es).insert(k, v));
}

/// Folding from the left: the map of `head :: rest` when the head's key
/// does not recur in `rest`.
proof fn lemma_entries_map_unfold_head_general(
    e: (Seq<char>, Seq<char>),
    rest: Seq<(Seq<char>, Seq<char>)>,
)
    requires
        forall|j: int| 0 <= j < rest.len() ==> (#[trigger] rest[j].0) != e.0,
    ensures
        entries_map(seq![e] + rest) == entries_map(rest).insert(e.0, e.1),
    decreases rest.len(),
{
    if rest.len() == 0 {
        assert((seq![e] + rest).drop_last() =~= rest);
        assert((seq![e] + rest).last() == e);
        assert(entries_map(seq![e] + rest) == entries_map(rest).insert(e.0, e.1));
    } else {
        assert forall|j: int| 0 <= j < rest.drop_last().len() implies (#[trigger] rest.drop_last(
        )[j].0) != e.0 by {
            assert(rest.drop_last()[j] == rest[j]);
        }
        lemma_entries_map_unfold_head_general(e, rest.drop_last());
        assert((seq![e] + rest).drop_last() =~= seq![e] + rest.drop_last());
        assert((seq![e] + rest).last() == rest.last());
        assert(entries_map(seq![e] + rest) == entries_map(
            seq![e] + rest.drop_last(),
        ).insert(rest.last().0, rest.last().1));
        assert(rest.last().0 != e.0);
        let m = entries_map(rest.drop_last());
        assert(m.insert(e.0, e.1).insert(rest.last().0, rest.last().1) =~= m.insert(
            rest.last().0,
            rest.last().1,
        ).insert(e.0, e.1));
        assert(entries_map(rest) == m.insert(rest.last().0, rest.last().1));
        assert(entries_map(seq![e] + rest) == entries_map(rest).insert(e.0, e.1));
    }
}

proof fn lemma_entries_map_unfold_head(es: Seq<(Seq<char>, Seq<char>)>)
    requires
        entries_sorted(es),
        es.len() > 0,
    ensures
        entries_map(es) == entries_map(es.skip(1)).insert(es[0].0, es[0].1),
{
    assert forall|j: int| 0 <= j < es.skip(1).len() implies (#[trigger] es.skip(1)[j].0)
        != es[0].0 by {
        assert(es.skip(1)[j] == es[j + 1]);
        assert(lex_lt(es[0].0, es[j + 1].0));
        lemma_lex_irreflexive(es[0].0);
    }
    lemma_entries_map_unfold_head_general(es[0], es.skip(1));
    assert(seq![es[0]] + es.skip(1) =~= es);
}

/// A key that matches an entry is in the map with that entry's value,
/// provided keys are unique past that entry.
proof fn lemma_entries_map_get(es: Seq<(Seq<char>, Seq<char>)>, i: int)
    requires
        entries_sorted(es),
        0 <= i < es.len(),
    ensures
        entries_map(es).contains_key(es[i].0),
        entries_map(es)[es[i].0] == es[i].1,
    decreases es.len(),
{
    if i == es.len() - 1 {
    } else {
        lemma_entries_map_get(es.drop_last(), i);
        assert(es.drop_last()[i] == es[i]);
        assert(lex_lt(es[i].0, es.last().0));
        lemma_lex_irreflexive(es[i].0);
    }
}

/// A key matching no entry is not in the map.
proof fn lemma_entries_map_absent(es: Seq<(Seq<char>, Seq<char>)>, k: Seq<char>)
    requires
        forall|j: int| 0 <= j < es.len() ==> (#[trigger] es[j].0) != k,
    ensures
        !entries_map(es).contains_key(k),
    decreases es.len(),
{
    if es.len() > 0 {
        lemma_entries_map_absent(es.drop_last(), k);
    }
}

/// Exact comparison in the lexicographic key order.
pub fn key_lt(a: &String, b: &String) -> (r: bool)
    ensures
        r == lex_lt(a@, b@),
{
    let av = crate::txt::to_chars(a.as_str());
    let bv = crate::txt::to_chars(b.as_str());
    let r = chars_lt_from(&av, &bv, 0);
    proof {
        assert(av@.skip(0) =~= av@);
        assert(bv@.skip(0) =~= bv@);
    }
    r
}

fn chars_lt_from(a: &Vec<char>, b: &Vec<char>, i: usize) -> (r: bool)
    requires
        i <= a.len(),
        i <= b.len(),
    ensures
        r == lex_lt(a@.skip(i as int), b@.skip(i as int)),
    decreases a.len() - i,
{
    proof {
        assert(a@.skip(i as int).len() == a@.len() - i);
        assert(b@.skip(i as int).len() == b@.len() - i);
    }
    if i == b.len() {
        return false;
    }
    if i == a.len() {
        return true;
    }
    let ca = a[i];
    let cb = b[i];
    proof {
        assert(a@.skip(i as int)[0] == a@[i as int]);
        assert(b@.skip(i as int)[0] == b@[i as int]);
    }
    if ca < cb {
        true
    } else if ca == cb {
        let r = chars_lt_from(a, b, i + 1);
        proof {
            assert(a@.skip(i as int).skip(1) =~= a@.skip(i + 1 as int));
            assert(b@.skip(i as int).skip(1) =~= b@.skip(i + 1 as int));
        }
        r
    } else {
        proof {
            assert(a@.skip(i as int)[0] != b@.skip(i as int)[0]);
        }
        false
    }
}

} // verus!
