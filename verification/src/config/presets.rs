//! Named input presets: a map from a preset's name to its raw value, kept in
//! the order of the names.

use crate::text::chars_of;
use crate::text::order::{before, lemma_before_asymmetric, lemma_before_transitive, place, place_chars, Place};
use vstd::prelude::*;

verus! {

/// One preset as contracts see it: its name and its raw value.
pub type Pair = (Seq<char>, u16);

/// No name occurs twice and the names stand in increasing order.
pub open spec fn strictly_sorted(p: Seq<Pair>) -> bool {
    forall|i: int, j: int| 0 <= i < j < p.len() ==> before(#[trigger] p[i].0, #[trigger] p[j].0)
}

/// Some pair of `p` has the name `name`.
pub open spec fn has_name(p: Seq<Pair>, name: Seq<char>) -> bool {
    exists|i: int| 0 <= i < p.len() && #[trigger] p[i].0 == name
}

/// The index of a pair of `p` that has the name `name`.
pub open spec fn index_of(p: Seq<Pair>, name: Seq<char>) -> int {
    choose|i: int| 0 <= i < p.len() && #[trigger] p[i].0 == name
}

/// The map that the pairs `p` spell out.
pub open spec fn pairs_map(p: Seq<Pair>) -> Map<Seq<char>, u16> {
    Map::new(|name: Seq<char>| has_name(p, name), |name: Seq<char>| p[index_of(p, name)].1)
}

/// The presets of the map `m` in the order of their names.
pub open spec fn sorted_pairs(m: Map<Seq<char>, u16>) -> Seq<Pair> {
    choose|p: Seq<Pair>| strictly_sorted(p) && pairs_map(p) == m
}

/// In a sorted list a name stands at one index only.
pub proof fn lemma_sorted_index(p: Seq<Pair>, i: int)
    requires
        strictly_sorted(p),
        0 <= i < p.len(),
    ensures
        has_name(p, p[i].0),
        index_of(p, p[i].0) == i,
        pairs_map(p).contains_key(p[i].0),
        pairs_map(p)[p[i].0] == p[i].1,
{
    let k = index_of(p, p[i].0);
    if k < i {
        lemma_before_asymmetric(p[k].0, p[i].0);
    } else if i < k {
        lemma_before_asymmetric(p[i].0, p[k].0);
    }
}

/// Two sorted lists that spell out the same map are the same list.
pub proof fn lemma_sorted_pairs_unique(p: Seq<Pair>, q: Seq<Pair>)
    requires
        strictly_sorted(p),
        strictly_sorted(q),
        pairs_map(p) == pairs_map(q),
    ensures
        p == q,
    decreases p.len(),
{
    if p.len() == 0 {
        if q.len() > 0 {
            lemma_sorted_index(q, 0);
            assert(pairs_map(p).contains_key(q[0].0));
        }
        assert(p =~= q);
    } else if q.len() == 0 {
        lemma_sorted_index(p, 0);
        assert(pairs_map(q).contains_key(p[0].0));
    } else {
        let a = p.last();
        let b = q.last();
        lemma_sorted_index(p, p.len() - 1);
        lemma_sorted_index(q, q.len() - 1);
        // the greatest name of either list is in the other, so they agree
        assert(pairs_map(q).contains_key(a.0));
        let ia = index_of(q, a.0);
        assert(pairs_map(p).contains_key(b.0));
        let ib = index_of(p, b.0);
        if ia < q.len() - 1 {
            // a.0 before b.0
            if ib < p.len() - 1 {
                lemma_before_asymmetric(p[ib].0, a.0);
            }
            lemma_before_asymmetric(q[ia].0, b.0);
        }
        assert(ia == q.len() - 1);
        assert(a.0 == b.0);
        assert(pairs_map(p)[a.0] == a.1);
        assert(pairs_map(q)[b.0] == b.1);
        assert(a == b);
        let shorter_p = p.drop_last();
        let shorter_q = q.drop_last();
        assert(strictly_sorted(shorter_p));
        assert(strictly_sorted(shorter_q));
        lemma_drop_last_map(p);
        lemma_drop_last_map(q);
        lemma_sorted_pairs_unique(shorter_p, shorter_q);
        assert(p =~= shorter_p.push(a));
        assert(q =~= shorter_q.push(b));
    }
}

/// A sorted list is the list of its map's presets in the order of their
/// names: the order depends on the presets alone.
pub proof fn lemma_sorted_pairs_of(p: Seq<Pair>)
    requires
        strictly_sorted(p),
    ensures
        sorted_pairs(pairs_map(p)) == p,
{
    let q = sorted_pairs(pairs_map(p));
    lemma_sorted_pairs_unique(q, p);
}

/// Dropping the last pair of a sorted list removes its name from the map.
pub proof fn lemma_drop_last_map(p: Seq<Pair>)
    requires
        strictly_sorted(p),
        p.len() > 0,
    ensures
        pairs_map(p.drop_last()) == pairs_map(p).remove(p.last().0),
{
    let q = p.drop_last();
    let last = p.last();
    assert(strictly_sorted(q));
    assert forall|name: Seq<char>| pairs_map(q).contains_key(name) <==> pairs_map(p).remove(
        last.0,
    ).contains_key(name) by {
        if has_name(q, name) {
            let i = index_of(q, name);
            assert(p[i].0 == name);
            lemma_before_asymmetric(p[i].0, last.0);
        }
        if has_name(p, name) && name != last.0 {
            let i = index_of(p, name);
            assert(q[i].0 == name);
        }
    }
    assert forall|name: Seq<char>| pairs_map(q).contains_key(name) implies pairs_map(q)[name]
        == pairs_map(p).remove(last.0)[name] by {
        let i = index_of(q, name);
        lemma_sorted_index(q, i);
        assert(p[i] == q[i]);
        lemma_sorted_index(p, i);
    }
    assert(pairs_map(q) =~= pairs_map(p).remove(last.0));
}

/// The list `p` with the preset `name` set to `value`: put in at its
/// place in the order where the name is new, in place of the old value
/// where it is not.
pub open spec fn inserted(p: Seq<Pair>, name: Seq<char>, value: u16) -> Seq<Pair>
    decreases p.len(),
{
    if p.len() == 0 {
        seq![(name, value)]
    } else if before(p.last().0, name) {
        p.push((name, value))
    } else if p.last().0 == name {
        p.drop_last().push((name, value))
    } else {
        inserted(p.drop_last(), name, value).push(p.last())
    }
}

/// The map of a sorted list is the map of the list without its last pair,
/// with that pair put in.
pub proof fn lemma_last_pair_map(p: Seq<Pair>)
    requires
        strictly_sorted(p),
        p.len() > 0,
    ensures
        pairs_map(p) == pairs_map(p.drop_last()).insert(p.last().0, p.last().1),
        !pairs_map(p.drop_last()).contains_key(p.last().0),
{
    lemma_drop_last_map(p);
    lemma_sorted_index(p, p.len() - 1);
    assert(pairs_map(p) =~= pairs_map(p.drop_last()).insert(p.last().0, p.last().1));
}

/// Setting a preset in a sorted list gives a sorted list, whose map is the
/// map of the list with the preset put in.
pub proof fn lemma_inserted(p: Seq<Pair>, name: Seq<char>, value: u16)
    requires
        strictly_sorted(p),
    ensures
        strictly_sorted(inserted(p, name, value)),
        pairs_map(inserted(p, name, value)) == pairs_map(p).insert(name, value),
    decreases p.len(),
{
    let q = inserted(p, name, value);
    let pair: Pair = (name, value);
    if p.len() == 0 {
        assert(q[0].0 == name);
        assert(has_name(q, name));
        assert(pairs_map(q) =~= pairs_map(p).insert(name, value)) by {
            assert forall|n: Seq<char>| has_name(q, n) implies n == name by {
                let i = index_of(q, n);
                assert(q[i] == pair);
            }
            lemma_sorted_index(q, 0);
        }
    } else {
        let rest = p.drop_last();
        let last = p.last();
        assert(strictly_sorted(rest));
        lemma_last_pair_map(p);
        if before(last.0, name) {
            assert forall|i: int, j: int| 0 <= i < j < q.len() implies before(
                #[trigger] q[i].0,
                #[trigger] q[j].0,
            ) by {
                if j == q.len() - 1 {
                    assert(q[i] == p[i]);
                    if i < p.len() - 1 {
                        lemma_before_transitive(p[i].0, last.0, name);
                    }
                } else {
                    assert(q[i] == p[i] && q[j] == p[j]);
                }
            }
            assert(q.drop_last() =~= p);
            lemma_last_pair_map(q);
        } else if last.0 == name {
            assert forall|i: int, j: int| 0 <= i < j < q.len() implies before(
                #[trigger] q[i].0,
                #[trigger] q[j].0,
            ) by {
                assert(q[i].0 == p[i].0 && q[j].0 == p[j].0);
            }
            assert(q.drop_last() =~= rest);
            lemma_last_pair_map(q);
            assert(pairs_map(q) =~= pairs_map(p).insert(name, value));
        } else {
            crate::text::order::lemma_before_total(last.0, name);
            let shorter = inserted(rest, name, value);
            lemma_inserted(rest, name, value);
            assert(q == shorter.push(last));
            assert forall|i: int| 0 <= i < shorter.len() implies before(
                (#[trigger] shorter[i]).0,
                last.0,
            ) by {
                lemma_sorted_index(shorter, i);
                let n = shorter[i].0;
                assert(pairs_map(rest).insert(name, value).contains_key(n));
                if n != name {
                    let k = index_of(rest, n);
                    assert(p[k].0 == n);
                }
            }
            assert forall|i: int, j: int| 0 <= i < j < q.len() implies before(
                #[trigger] q[i].0,
                #[trigger] q[j].0,
            ) by {
                if j == q.len() - 1 {
                    assert(q[i] == shorter[i]);
                } else {
                    assert(q[i] == shorter[i] && q[j] == shorter[j]);
                }
            }
            assert(q.drop_last() =~= shorter);
            lemma_last_pair_map(q);
            assert(pairs_map(q) =~= pairs_map(p).insert(name, value));
        }
    }
}

/// The order in which two presets are put in makes no difference to the
/// list, and neither does putting a preset in twice.
pub proof fn lemma_insertion_order(p: Seq<Pair>, first: Pair, second: Pair)
    requires
        strictly_sorted(p),
        first.0 != second.0,
    ensures
        inserted(inserted(p, first.0, first.1), second.0, second.1) == inserted(
            inserted(p, second.0, second.1),
            first.0,
            first.1,
        ),
        inserted(inserted(p, first.0, first.1), first.0, first.1) == inserted(
            p,
            first.0,
            first.1,
        ),
{
    let one = inserted(p, first.0, first.1);
    let other = inserted(p, second.0, second.1);
    lemma_inserted(p, first.0, first.1);
    lemma_inserted(p, second.0, second.1);
    lemma_inserted(one, second.0, second.1);
    lemma_inserted(other, first.0, first.1);
    lemma_inserted(one, first.0, first.1);
    let m = pairs_map(p);
    assert(m.insert(first.0, first.1).insert(second.0, second.1) =~= m.insert(
        second.0,
        second.1,
    ).insert(first.0, first.1));
    assert(m.insert(first.0, first.1).insert(first.0, first.1) =~= m.insert(first.0, first.1));
    lemma_sorted_pairs_unique(
        inserted(one, second.0, second.1),
        inserted(other, first.0, first.1),
    );
    lemma_sorted_pairs_unique(inserted(one, first.0, first.1), one);
}

/// The presets of a map stand in one order only: for every map of
/// finitely many presets there is the list of them in the order of their
/// names, and it is `sorted_pairs`.
pub proof fn lemma_sorted_pairs(m: Map<Seq<char>, u16>)
    requires
        m.dom().finite(),
    ensures
        strictly_sorted(sorted_pairs(m)),
        pairs_map(sorted_pairs(m)) == m,
        sorted_pairs(m).len() == m.len(),
    decreases m.dom().len(),
{
    if m.dom().len() == 0 {
        let p = Seq::<Pair>::empty();
        assert(m.dom() =~= Set::<Seq<char>>::empty());
        assert(pairs_map(p) =~= m);
        assert(strictly_sorted(p));
    } else {
        let name = m.dom().choose();
        let rest = m.remove(name);
        assert(rest.dom() =~= m.dom().remove(name));
        lemma_sorted_pairs(rest);
        let p = inserted(sorted_pairs(rest), name, m[name]);
        lemma_inserted(sorted_pairs(rest), name, m[name]);
        assert(pairs_map(p) =~= m);
    }
    lemma_pairs_map_len(sorted_pairs(m));
}

/// One named preset.
#[derive(Debug, Clone)]
pub struct Preset {
    pub name: String,
    pub value: u16,
}

impl Preset {
    /// The preset as contracts see it.
    pub open spec fn pair(self) -> Pair {
        (self.name@, self.value)
    }
}

/// The presets of a configuration: at most one value for a name.
///
/// The entries are kept sorted by name, so two collections that hold the
/// same presets list them in the same order.
#[derive(Debug)]
pub struct InputPresets {
    entries: Vec<Preset>,
}

impl View for InputPresets {
    type V = Map<Seq<char>, u16>;

    open spec fn view(&self) -> Map<Seq<char>, u16> {
        pairs_map(self.pairs())
    }
}

impl Clone for InputPresets {
    fn clone(&self) -> (r: Self)
        ensures
            r.wf(),
            r.pairs() == self.pairs(),
            r@ == self@,
    {
        self.copy()
    }
}

impl InputPresets {
    /// The presets in the order of their names.
    pub closed spec fn pairs(&self) -> Seq<Pair> {
        Seq::new(self.entries@.len(), |i: int| self.entries@[i].pair())
    }

    /// What holds of every collection: the names are strictly increasing.
    pub open spec fn wf(&self) -> bool {
        strictly_sorted(self.pairs())
    }

    #[verifier::type_invariant]
    spec fn inv(&self) -> bool {
        self.wf()
    }

    /// A collection without presets.
    pub fn new() -> (r: Self)
        ensures
            r.wf(),
            r.pairs() == Seq::<Pair>::empty(),
            r@ == Map::<Seq<char>, u16>::empty(),
    {
        let r = InputPresets { entries: Vec::new() };
        assert(r.pairs() =~= Seq::<Pair>::empty());
        assert(r@ =~= Map::<Seq<char>, u16>::empty());
        r
    }

    /// The number of presets.
    pub fn len(&self) -> (n: usize)
        ensures
            self.wf(),
            n == self.pairs().len(),
            n == self@.len(),
            self@.dom().finite(),
            self.pairs() == sorted_pairs(self@),
    {
        proof {
            use_type_invariant(self);
            lemma_pairs_map_len(self.pairs());
            lemma_sorted_pairs_of(self.pairs());
        }
        self.entries.len()
    }

    /// `true` when there is no preset.
    pub fn is_empty(&self) -> (r: bool)
        ensures
            self.wf(),
            r == (self.pairs().len() == 0),
            r == (self@ == Map::<Seq<char>, u16>::empty()),
    {
        proof {
            use_type_invariant(self);
            if self.pairs().len() > 0 {
                lemma_sorted_index(self.pairs(), 0);
            } else {
                assert(self@ =~= Map::<Seq<char>, u16>::empty());
            }
        }
        self.entries.len() == 0
    }

    /// The name of the preset at `i`, counted in the order of the names.
    pub fn name_at(&self, i: usize) -> (r: &String)
        requires
            i < self.pairs().len(),
        ensures
            r@ == self.pairs()[i as int].0,
    {
        &self.entries[i].name
    }

    /// The value of the preset at `i`, counted in the order of the names.
    pub fn value_at(&self, i: usize) -> (r: u16)
        requires
            i < self.pairs().len(),
        ensures
            r == self.pairs()[i as int].1,
    {
        self.entries[i].value
    }

    /// Index of the first preset whose name is not before `name`, and
    /// whether that preset has the name itself.
    fn locate(&self, name: &Vec<char>) -> (r: (usize, bool))
        ensures
            self.wf(),
            r.0 <= self.pairs().len(),
            forall|i: int| 0 <= i < r.0 ==> before(#[trigger] self.pairs()[i].0, name@),
            r.1 ==> r.0 < self.pairs().len() && self.pairs()[r.0 as int].0 == name@,
            !r.1 ==> forall|i: int|
                r.0 <= i < self.pairs().len() ==> before(name@, #[trigger] self.pairs()[i].0),
            r.1 == has_name(self.pairs(), name@),
    {
        proof {
            use_type_invariant(self);
        }
        let ghost p = self.pairs();
        let mut i: usize = 0;
        while i < self.entries.len()
            invariant
                p == self.pairs(),
                strictly_sorted(p),
                i <= self.entries.len(),
                self.entries.len() == p.len(),
                forall|k: int| 0 <= k < i ==> before(#[trigger] p[k].0, name@),
            decreases self.entries.len() - i,
        {
            let here = chars_of(self.entries[i].name.as_str());
            assert(here@ == p[i as int].0);
            match place_chars(&here, name) {
                Place::Before => {},
                Place::Same => {
                    return (i, true);
                },
                Place::After => {
                    proof {
                        crate::text::order::lemma_before_total(here@, name@);
                        assert forall|k: int| i <= k < p.len() implies before(
                            name@,
                            #[trigger] p[k].0,
                        ) by {
                            if k > i {
                                lemma_before_transitive(name@, p[i as int].0, p[k].0);
                            }
                        }
                        assert forall|k: int| 0 <= k < p.len() implies #[trigger] p[k].0
                            != name@ by {
                            if k < i {
                                lemma_before_asymmetric(p[k].0, name@);
                            } else {
                                lemma_before_asymmetric(name@, p[k].0);
                            }
                        }
                    }
                    return (i, false);
                },
            }
            i += 1;
        }
        proof {
            assert forall|k: int| 0 <= k < p.len() implies #[trigger] p[k].0 != name@ by {
                lemma_before_asymmetric(p[k].0, name@);
            }
        }
        (i, false)
    }

    /// The value of the preset named `name`, if there is one.
    pub fn get(&self, name: &str) -> (r: Option<u16>)
        ensures
            match r {
                Some(v) => self@.contains_key(name@) && self@[name@] == v,
                None => !self@.contains_key(name@),
            },
    {
        let n = chars_of(name);
        let (i, found) = self.locate(&n);
        if found {
            proof {
                lemma_sorted_index(self.pairs(), i as int);
            }
            Some(self.entries[i].value)
        } else {
            None
        }
    }

    /// Sets the value of the preset named `name`, adding the preset where
    /// the name is new.
    pub fn insert(&mut self, name: &str, value: u16)
        ensures
            final(self).wf(),
            final(self)@ == old(self)@.insert(name@, value),
            final(self).pairs() == inserted(old(self).pairs(), name@, value),
    {
        let n = chars_of(name);
        let (i, found) = self.locate(&n);
        let ghost p = self.pairs();
        let item = Preset { name: String::from_str(name), value };
        let mut entries: Vec<Preset> = Vec::new();
        core::mem::swap(&mut self.entries, &mut entries);
        if found {
            entries.set(i, item);
        } else {
            entries.insert(i, item);
        }
        proof {
            let q = Seq::new(entries@.len(), |k: int| entries@[k].pair());
            let pair: Pair = (name@, value);
            if found {
                assert(q =~= p.update(i as int, pair));
                assert forall|a: int, b: int| 0 <= a < b < q.len() implies before(
                    #[trigger] q[a].0,
                    #[trigger] q[b].0,
                ) by {
                    assert(q[a].0 == p[a].0 && q[b].0 == p[b].0);
                }
            } else {
                assert(q =~= p.insert(i as int, pair));
                assert forall|a: int, b: int| 0 <= a < b < q.len() implies before(
                    #[trigger] q[a].0,
                    #[trigger] q[b].0,
                ) by {
                    if a < i && b < i {
                        assert(q[a] == p[a] && q[b] == p[b]);
                    } else if a < i && b == i {
                        assert(q[a] == p[a]);
                    } else if a < i && b > i {
                        assert(q[a] == p[a] && q[b] == p[b - 1]);
                    } else if a == i {
                        assert(q[b] == p[b - 1]);
                    } else {
                        assert(q[a] == p[a - 1] && q[b] == p[b - 1]);
                    }
                }
            }
            lemma_map_after_insert(p, q, i as int, found, name@, value);
            lemma_inserted(p, name@, value);
            lemma_sorted_pairs_unique(q, inserted(p, name@, value));
        }
        self.entries = entries;
    }

    /// A copy of the collection.
    pub fn copy(&self) -> (r: Self)
        ensures
            r.wf(),
            r.pairs() == self.pairs(),
            r@ == self@,
    {
        proof {
            use_type_invariant(self);
        }
        let mut entries: Vec<Preset> = Vec::new();
        let mut i: usize = 0;
        while i < self.entries.len()
            invariant
                i <= self.entries.len(),
                entries@.len() == i,
                forall|k: int| 0 <= k < i ==> (#[trigger] entries@[k]).pair() == self.entries@[k].pair(),
            decreases self.entries.len() - i,
        {
            let e = &self.entries[i];
            entries.push(Preset { name: e.name.clone(), value: e.value });
            i += 1;
        }
        let ghost p = self.pairs();
        assert(Seq::new(entries@.len(), |k: int| entries@[k].pair()) =~= p);
        let r = InputPresets { entries };
        assert(r.pairs() =~= p);
        r
    }

    /// The presets of `self` with those of `over` laid on top: where both
    /// have a name, the value of `over` stands.
    pub fn merged(&self, over: &InputPresets) -> (r: Self)
        ensures
            r.wf(),
            r@ == self@.union_prefer_right(over@),
    {
        let mut r = self.copy();
        let n = over.len();
        let ghost q = over.pairs();
        let mut i: usize = 0;
        while i < n
            invariant
                i <= n,
                n == q.len(),
                q == over.pairs(),
                strictly_sorted(q),
                r.wf(),
                r@ == self@.union_prefer_right(pairs_map(q.take(i as int))),
            decreases n - i,
        {
            let name = over.name_at(i);
            let value = over.value_at(i);
            let ghost before_map = r@;
            r.insert(name.as_str(), value);
            proof {
                let t0 = q.take(i as int);
                let t1 = q.take(i + 1);
                assert(strictly_sorted(t1));
                assert(t1.drop_last() =~= t0);
                lemma_drop_last_map(t1);
                lemma_sorted_index(t1, i as int);
                assert(pairs_map(t1) =~= pairs_map(t0).insert(q[i as int].0, q[i as int].1));
                assert(r@ =~= self@.union_prefer_right(pairs_map(t1)));
            }
            i += 1;
        }
        proof {
            assert(q.take(n as int) =~= q);
            assert(self@.union_prefer_right(Map::<Seq<char>, u16>::empty()) =~= self@) by {
                assert(pairs_map(q.take(0)) =~= Map::<Seq<char>, u16>::empty());
            }
        }
        r
    }
}

/// The map of a sorted list has as many keys as the list has pairs.
pub proof fn lemma_pairs_map_len(p: Seq<Pair>)
    requires
        strictly_sorted(p),
    ensures
        pairs_map(p).dom().finite(),
        pairs_map(p).len() == p.len(),
    decreases p.len(),
{
    if p.len() == 0 {
        assert(pairs_map(p) =~= Map::<Seq<char>, u16>::empty());
    } else {
        let q = p.drop_last();
        assert(strictly_sorted(q));
        lemma_pairs_map_len(q);
        lemma_drop_last_map(p);
        lemma_sorted_index(p, p.len() - 1);
        assert(pairs_map(p) =~= pairs_map(q).insert(p.last().0, p.last().1));
        assert(!pairs_map(q).contains_key(p.last().0));
    }
}

/// What the map is after the step that `insert` takes on the list.
proof fn lemma_map_after_insert(
    p: Seq<Pair>,
    q: Seq<Pair>,
    i: int,
    found: bool,
    name: Seq<char>,
    value: u16,
)
    requires
        strictly_sorted(p),
        strictly_sorted(q),
        0 <= i <= p.len(),
        found ==> i < p.len() && p[i].0 == name && q == p.update(i, (name, value)),
        !found ==> !has_name(p, name) && q == p.insert(i, (name, value)),
    ensures
        pairs_map(q) == pairs_map(p).insert(name, value),
{
    let m = pairs_map(p).insert(name, value);
    assert forall|n: Seq<char>| pairs_map(q).contains_key(n) <==> m.contains_key(n) by {
        if has_name(q, n) {
            let k = index_of(q, n);
            if found {
                assert(p[k].0 == q[k].0);
            } else if k < i {
                assert(p[k] == q[k]);
            } else if k > i {
                assert(p[k - 1] == q[k]);
            }
        }
        if has_name(p, n) {
            let k = index_of(p, n);
            if found {
                assert(q[k].0 == n);
            } else if k < i {
                assert(q[k].0 == n);
            } else {
                assert(q[k + 1].0 == n);
            }
        }
        if n == name {
            assert(q[i].0 == name);
        }
    }
    assert forall|n: Seq<char>| pairs_map(q).contains_key(n) implies pairs_map(q)[n] == m[n] by {
        let k = index_of(q, n);
        lemma_sorted_index(q, k);
        if n == name {
            if k != i {
                lemma_sorted_index(q, i);
            }
        } else {
            if found {
                assert(p[k] == q[k]);
                lemma_sorted_index(p, k);
            } else if k < i {
                assert(p[k] == q[k]);
                lemma_sorted_index(p, k);
            } else {
                assert(k > i);
                assert(p[k - 1] == q[k]);
                lemma_sorted_index(p, k - 1);
            }
        }
    }
    assert(pairs_map(q) =~= m);
}

} // verus!
