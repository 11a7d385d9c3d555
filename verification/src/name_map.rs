//! A map from names to values that is walked in the order of the names.
//!
//! The entries are kept in a vector, strictly increasing by name. The view
//! of the map is a mathematical map; `names` and `value_views` give the
//! entries in the order in which they are walked.

use crate::text::{
    compare_names, lemma_name_precedes_irreflexive, lemma_name_precedes_total,
    lemma_name_precedes_transitive, name_precedes, names_increasing, NameOrder,
};
use vstd::prelude::*;

verus! {

/// The map that sends `names[i]` to `values[i]`.
pub open spec fn lookup_map<A>(names: Seq<Seq<char>>, values: Seq<A>) -> Map<Seq<char>, A> {
    Map::new(|k: Seq<char>| names.contains(k), |k: Seq<char>| values[names.index_of(k)])
}

/// In an increasing sequence a name is found at one position only.
pub proof fn lemma_increasing_distinct(names: Seq<Seq<char>>, i: int, j: int)
    requires
        names_increasing(names),
        0 <= i < names.len(),
        0 <= j < names.len(),
        names[i] == names[j],
    ensures
        i == j,
{
    if i < j {
        lemma_name_precedes_irreflexive(names[i]);
    } else if j < i {
        lemma_name_precedes_irreflexive(names[i]);
    }
}

/// `lookup_map` sends the name at position `i` to the value at position `i`.
pub proof fn lemma_lookup_at<A>(names: Seq<Seq<char>>, values: Seq<A>, i: int)
    requires
        names_increasing(names),
        0 <= i < names.len(),
    ensures
        lookup_map(names, values).dom().contains(names[i]),
        names.index_of(names[i]) == i,
        lookup_map(names, values)[names[i]] == values[i],
{
    lemma_increasing_distinct(names, i, names.index_of(names[i]));
}

/// A name that stands between its neighbours keeps the sequence
/// increasing when it is put in at `pos`.
pub proof fn lemma_insert_increasing(names: Seq<Seq<char>>, pos: int, name: Seq<char>)
    requires
        names_increasing(names),
        0 <= pos <= names.len(),
        forall|j: int| 0 <= j < pos ==> name_precedes(names[j], name),
        pos < names.len() ==> name_precedes(name, names[pos]),
    ensures
        names_increasing(names.insert(pos, name)),
        !names.contains(name),
{
    assert forall|j: int| pos <= j < names.len() implies name_precedes(name, names[j]) by {
        if pos < j {
            lemma_name_precedes_transitive(name, names[pos], names[j]);
        }
    }
    let after = names.insert(pos, name);
    assert forall|i: int, j: int| 0 <= i < j < after.len() implies name_precedes(
        after[i],
        after[j],
    ) by {
        let a = if i < pos {
            i
        } else {
            i - 1
        };
        let b = if j < pos {
            j
        } else {
            j - 1
        };
        if i != pos && j != pos {
            assert(after[i] == names[a]);
            assert(after[j] == names[b]);
        }
    }
    if names.contains(name) {
        let j = names.index_of(name);
        lemma_name_precedes_irreflexive(name);
    }
}

/// Putting a new name in at `pos` adds one pair to the map.
pub proof fn lemma_lookup_insert<A>(
    names: Seq<Seq<char>>,
    values: Seq<A>,
    pos: int,
    name: Seq<char>,
    value: A,
)
    requires
        names_increasing(names),
        names.len() == values.len(),
        0 <= pos <= names.len(),
        names_increasing(names.insert(pos, name)),
    ensures
        lookup_map(names.insert(pos, name), values.insert(pos, value)) == lookup_map(
            names,
            values,
        ).insert(name, value),
{
    let names2 = names.insert(pos, name);
    let values2 = values.insert(pos, value);
    let before = lookup_map(names, values);
    let after = lookup_map(names2, values2);
    assert(names2[pos] == name);
    assert forall|k: Seq<char>| after.dom().contains(k) <==> before.insert(
        name,
        value,
    ).dom().contains(k) by {
        if names2.contains(k) {
            let i = names2.index_of(k);
            if i < pos {
                assert(names[i] == k);
            } else if i > pos {
                assert(names[i - 1] == k);
            }
        }
        if names.contains(k) {
            let i = names.index_of(k);
            if i < pos {
                assert(names2[i] == k);
            } else {
                assert(names2[i + 1] == k);
            }
        }
    }
    assert forall|k: Seq<char>| after.dom().contains(k) implies after[k] == before.insert(
        name,
        value,
    )[k] by {
        let i = names2.index_of(k);
        lemma_lookup_at(names2, values2, i);
        if k == name {
            lemma_increasing_distinct(names2, i, pos);
        } else if i < pos {
            assert(names[i] == k);
            lemma_lookup_at(names, values, i);
        } else {
            assert(names[i - 1] == k);
            lemma_lookup_at(names, values, i - 1);
        }
    }
    assert(after =~= before.insert(name, value));
}

/// Replacing the value at `pos` replaces it in the map.
pub proof fn lemma_lookup_update<A>(names: Seq<Seq<char>>, values: Seq<A>, pos: int, value: A)
    requires
        names_increasing(names),
        names.len() == values.len(),
        0 <= pos < names.len(),
    ensures
        lookup_map(names, values.update(pos, value)) == lookup_map(names, values).insert(
            names[pos],
            value,
        ),
{
    let values2 = values.update(pos, value);
    let before = lookup_map(names, values);
    let after = lookup_map(names, values2);
    assert forall|k: Seq<char>| after.dom().contains(k) implies after[k] == before.insert(
        names[pos],
        value,
    )[k] by {
        let i = names.index_of(k);
        lemma_lookup_at(names, values2, i);
        lemma_lookup_at(names, values, i);
        if k == names[pos] {
            lemma_increasing_distinct(names, i, pos);
        }
    }
    assert(after =~= before.insert(names[pos], value));
}

/// Taking out the entry at `pos` takes its name out of the map.
pub proof fn lemma_lookup_remove<A>(names: Seq<Seq<char>>, values: Seq<A>, pos: int)
    requires
        names_increasing(names),
        names.len() == values.len(),
        0 <= pos < names.len(),
    ensures
        names_increasing(names.remove(pos)),
        lookup_map(names.remove(pos), values.remove(pos)) == lookup_map(names, values).remove(
            names[pos],
        ),
{
    let names2 = names.remove(pos);
    let values2 = values.remove(pos);
    let before = lookup_map(names, values);
    let after = lookup_map(names2, values2);
    assert forall|i: int, j: int| 0 <= i < j < names2.len() implies name_precedes(
        names2[i],
        names2[j],
    ) by {
        let a = if i < pos {
            i
        } else {
            i + 1
        };
        let b = if j < pos {
            j
        } else {
            j + 1
        };
        assert(names2[i] == names[a]);
        assert(names2[j] == names[b]);
    }
    assert forall|k: Seq<char>| after.dom().contains(k) <==> before.remove(
        names[pos],
    ).dom().contains(k) by {
        if names2.contains(k) {
            let i = names2.index_of(k);
            let a = if i < pos {
                i
            } else {
                i + 1
            };
            assert(names[a] == k);
            lemma_increasing_distinct(names, a, if k == names[pos] {
                pos
            } else {
                a
            });
        }
        if names.contains(k) && k != names[pos] {
            let i = names.index_of(k);
            if i < pos {
                assert(names2[i] == k);
            } else {
                assert(names2[i - 1] == k);
            }
        }
    }
    assert forall|k: Seq<char>| after.dom().contains(k) implies after[k] == before.remove(
        names[pos],
    )[k] by {
        let i = names2.index_of(k);
        lemma_lookup_at(names2, values2, i);
        let a = if i < pos {
            i
        } else {
            i + 1
        };
        assert(names[a] == k);
        lemma_lookup_at(names, values, a);
    }
    assert(after =~= before.remove(names[pos]));
}

/// `a` and `b` hold the same names.
pub open spec fn same_names(a: Seq<Seq<char>>, b: Seq<Seq<char>>) -> bool {
    forall|k: Seq<char>| a.contains(k) <==> b.contains(k)
}

/// There is one way only to put a set of names in increasing order.
pub proof fn lemma_increasing_unique(a: Seq<Seq<char>>, b: Seq<Seq<char>>)
    requires
        names_increasing(a),
        names_increasing(b),
        same_names(a, b),
    ensures
        a == b,
    decreases a.len(),
{
    if a.len() == 0 {
        if b.len() > 0 {
            assert(b.contains(b[0]));
            assert(a.contains(b[0]));
        }
        assert(a =~= b);
    } else {
        let x = a.last();
        assert(a.contains(x));
        assert(b.contains(x));
        let y = b.last();
        assert(b.contains(y));
        assert(a.contains(y));
        let i = b.index_of(x);
        let j = a.index_of(y);
        if x != y {
            assert(i < b.len() - 1);
            assert(j < a.len() - 1);
            lemma_name_precedes_transitive(x, y, x);
            lemma_name_precedes_irreflexive(x);
        }
        let a0 = a.drop_last();
        let b0 = b.drop_last();
        assert forall|k: Seq<char>| a0.contains(k) <==> b0.contains(k) by {
            if a0.contains(k) {
                let m = a0.index_of(k);
                assert(a[m] == k);
                assert(a.contains(k));
                let n = b.index_of(k);
                if n == b.len() - 1 {
                    lemma_increasing_distinct(a, m, a.len() - 1);
                }
                assert(b0[n] == k);
            }
            if b0.contains(k) {
                let m = b0.index_of(k);
                assert(b[m] == k);
                assert(b.contains(k));
                let n = a.index_of(k);
                if n == a.len() - 1 {
                    lemma_increasing_distinct(b, m, b.len() - 1);
                }
                assert(a0[n] == k);
            }
        }
        lemma_increasing_unique(a0, b0);
        assert(a =~= a0.push(x));
        assert(b =~= b0.push(y));
    }
}

/// The names of a map in increasing order: the order in which a
/// [`NameMap`] with this view is walked.
pub open spec fn names_of<A>(m: Map<Seq<char>, A>) -> Seq<Seq<char>> {
    choose|names: Seq<Seq<char>>|
        names_increasing(names) && forall|k: Seq<char>| names.contains(k) <==> m.dom().contains(k)
}

/// The values of a map in the order of their names.
pub open spec fn values_of<A>(m: Map<Seq<char>, A>) -> Seq<A> {
    Seq::new(names_of(m).len(), |i: int| m[names_of(m)[i]])
}

/// A map with increasing `names` is walked in the order of `names`.
pub proof fn lemma_walk<A>(names: Seq<Seq<char>>, values: Seq<A>)
    requires
        names_increasing(names),
        names.len() == values.len(),
    ensures
        names_of(lookup_map(names, values)) == names,
        values_of(lookup_map(names, values)) == values,
{
    let m = lookup_map(names, values);
    assert(forall|k: Seq<char>| names.contains(k) <==> m.dom().contains(k));
    let chosen = names_of(m);
    assert(same_names(chosen, names));
    lemma_increasing_unique(chosen, names);
    assert forall|i: int| 0 <= i < names.len() implies m[names[i]] == values[i] by {
        lemma_lookup_at(names, values, i);
    }
    assert(values_of(m) =~= values);
}

/// The names of `m` can be listed in increasing order.
pub open spec fn listed<A>(m: Map<Seq<char>, A>) -> bool {
    exists|names: Seq<Seq<char>>|
        names_increasing(names) && forall|k: Seq<char>| names.contains(k) <==> m.dom().contains(k)
}

/// A map whose names can be listed is the map of its walk.
pub proof fn lemma_listed_walk<A>(m: Map<Seq<char>, A>)
    requires
        listed(m),
    ensures
        names_increasing(names_of(m)),
        names_of(m).len() == values_of(m).len(),
        forall|k: Seq<char>| names_of(m).contains(k) <==> m.dom().contains(k),
        lookup_map(names_of(m), values_of(m)) == m,
{
    let names = names_of(m);
    let values = values_of(m);
    assert(names_increasing(names));
    assert(forall|k: Seq<char>| names.contains(k) <==> m.dom().contains(k));
    assert forall|k: Seq<char>| m.dom().contains(k) implies lookup_map(names, values)[k]
        == m[k] by {
        assert(names.contains(k));
        let i = names.index_of(k);
        lemma_lookup_at(names, values, i);
    }
    assert(lookup_map(names, values) =~= m);
}

/// The names of the empty map can be listed.
pub proof fn lemma_listed_empty<A>()
    ensures
        listed(Map::<Seq<char>, A>::empty()),
{
    let names = Seq::<Seq<char>>::empty();
    assert(names_increasing(names));
    assert(forall|k: Seq<char>|
        names.contains(k) <==> Map::<Seq<char>, A>::empty().dom().contains(k));
}

/// The position at which `name` stands in `names` or would have to be
/// put in.
pub proof fn lemma_place(names: Seq<Seq<char>>, name: Seq<char>) -> (pos: int)
    requires
        names_increasing(names),
    ensures
        0 <= pos <= names.len(),
        forall|j: int| 0 <= j < pos ==> name_precedes(names[j], name),
        pos < names.len() ==> names[pos] == name || name_precedes(name, names[pos]),
    decreases names.len(),
{
    if names.len() == 0 {
        0
    } else {
        let last = names.last();
        lemma_name_precedes_total(last, name);
        if name_precedes(last, name) {
            assert forall|j: int| 0 <= j < names.len() implies name_precedes(names[j], name) by {
                if j < names.len() - 1 {
                    lemma_name_precedes_transitive(names[j], last, name);
                }
            }
            names.len() as int
        } else {
            let pos = lemma_place(names.drop_last(), name);
            assert forall|j: int| 0 <= j < pos implies name_precedes(names[j], name) by {
                assert(names.drop_last()[j] == names[j]);
            }
            if pos < names.len() - 1 {
                assert(names.drop_last()[pos] == names[pos]);
            }
            pos
        }
    }
}

/// Giving a name a value keeps the names listed.
pub proof fn lemma_listed_insert<A>(m: Map<Seq<char>, A>, name: Seq<char>, value: A)
    requires
        listed(m),
    ensures
        listed(m.insert(name, value)),
{
    let names = names_of(m);
    let after = m.insert(name, value);
    if m.dom().contains(name) {
        assert(forall|k: Seq<char>| names.contains(k) <==> after.dom().contains(k));
    } else {
        let pos = lemma_place(names, name);
        if pos < names.len() && names[pos] == name {
            assert(names.contains(name));
        }
        lemma_insert_increasing(names, pos, name);
        let names2 = names.insert(pos, name);
        assert forall|k: Seq<char>| names2.contains(k) <==> after.dom().contains(k) by {
            if names2.contains(k) {
                let i = names2.index_of(k);
                if i < pos {
                    assert(names[i] == k);
                } else if i > pos {
                    assert(names[i - 1] == k);
                }
            }
            if names.contains(k) {
                let i = names.index_of(k);
                if i < pos {
                    assert(names2[i] == k);
                } else {
                    assert(names2[i + 1] == k);
                }
            }
            if k == name {
                assert(names2[pos] == k);
            }
        }
    }
}

/// `k` is one of `names` from position `n` on.
pub open spec fn named_from(names: Seq<Seq<char>>, n: int, k: Seq<char>) -> bool {
    exists|i: int| n <= i < names.len() && #[trigger] names[i] == k
}

/// `start` with the value `values[i]` for each name `names[i]` from
/// position `n` on.
pub open spec fn merged_from<A>(
    start: Map<Seq<char>, A>,
    names: Seq<Seq<char>>,
    values: Seq<A>,
    n: int,
) -> Map<Seq<char>, A>
    decreases names.len() - n,
{
    if 0 <= n < names.len() {
        merged_from(start, names, values, n + 1).insert(names[n], values[n])
    } else {
        start
    }
}

/// What `merged_from` holds for the name `k`.
proof fn lemma_merged_at<A>(
    start: Map<Seq<char>, A>,
    names: Seq<Seq<char>>,
    values: Seq<A>,
    n: int,
    k: Seq<char>,
)
    requires
        names_increasing(names),
        names.len() == values.len(),
        0 <= n <= names.len(),
    ensures
        merged_from(start, names, values, n).dom().contains(k) <==> start.dom().contains(k)
            || named_from(names, n, k),
        named_from(names, n, k) ==> merged_from(start, names, values, n)[k]
            == values[names.index_of(k)],
        !named_from(names, n, k) ==> merged_from(start, names, values, n)[k] == start[k],
    decreases names.len() - n,
{
    if n < names.len() {
        lemma_merged_at(start, names, values, n + 1, k);
        lemma_lookup_at(names, values, n);
        if named_from(names, n + 1, k) {
            let i = choose|i: int| n + 1 <= i < names.len() && #[trigger] names[i] == k;
            assert(n <= i < names.len() && names[i] == k);
            lemma_increasing_distinct(names, i, if k == names[n] {
                n
            } else {
                i
            });
        }
        if named_from(names, n, k) && k != names[n] {
            let i = choose|i: int| n <= i < names.len() && #[trigger] names[i] == k;
            assert(n + 1 <= i < names.len() && names[i] == k);
        }
        if k == names[n] {
            assert(n <= n < names.len() && names[n] == k);
        }
    } else {
        if named_from(names, n, k) {
            let i = choose|i: int| n <= i < names.len() && #[trigger] names[i] == k;
        }
    }
}

/// Merging all of `names` in is taking the union that prefers them.
pub proof fn lemma_merged<A>(start: Map<Seq<char>, A>, names: Seq<Seq<char>>, values: Seq<A>)
    requires
        names_increasing(names),
        names.len() == values.len(),
    ensures
        merged_from(start, names, values, 0) == start.union_prefer_right(
            lookup_map(names, values),
        ),
{
    let merged = merged_from(start, names, values, 0);
    let union = start.union_prefer_right(lookup_map(names, values));
    assert forall|k: Seq<char>| named_from(names, 0, k) <==> names.contains(k) by {
        if names.contains(k) {
            let i = names.index_of(k);
            assert(0 <= i < names.len() && names[i] == k);
        }
        if named_from(names, 0, k) {
            let i = choose|i: int| 0 <= i < names.len() && #[trigger] names[i] == k;
            assert(0 <= i < names.len() && names[i] == k);
        }
    }
    assert forall|k: Seq<char>| merged.dom().contains(k) <==> union.dom().contains(k) by {
        lemma_merged_at(start, names, values, 0, k);
    }
    assert forall|k: Seq<char>| merged.dom().contains(k) implies merged[k] == union[k] by {
        lemma_merged_at(start, names, values, 0, k);
    }
    assert(merged =~= union);
}

/// A map from names to values, walked in the order of the names.
#[derive(Clone, Debug, PartialEq, Eq)]
pub struct NameMap<T> {
    names: Vec<String>,
    values: Vec<T>,
}

impl<T: View> View for NameMap<T> {
    type V = Map<Seq<char>, T::V>;

    open spec fn view(&self) -> Map<Seq<char>, T::V> {
        lookup_map(self.names(), self.value_views())
    }
}

impl<T: View> NameMap<T> {
    /// The names, in the order in which the map is walked.
    pub closed spec fn names(&self) -> Seq<Seq<char>> {
        Seq::new(self.names@.len(), |i: int| self.names@[i]@)
    }

    /// The values, in the order of their names.
    pub closed spec fn values(&self) -> Seq<T> {
        self.values@
    }

    /// The views of the values, in the order of their names.
    pub open spec fn value_views(&self) -> Seq<T::V> {
        Seq::new(self.values().len(), |i: int| self.values()[i]@)
    }

    /// Every name has a value, and the names are strictly increasing.
    pub open spec fn wf(&self) -> bool {
        &&& self.names().len() == self.values().len()
        &&& names_increasing(self.names())
    }

    /// The view sends the name at position `i` to the view of the value there.
    pub proof fn lemma_entry(&self, i: int)
        requires
            self.wf(),
            0 <= i < self.names().len(),
        ensures
            self@.dom().contains(self.names()[i]),
            self@[self.names()[i]] == self.values()[i]@,
    {
        lemma_lookup_at(self.names(), self.value_views(), i);
    }

    /// An empty map.
    pub fn new() -> (m: Self)
        ensures
            m.wf(),
            m@ == Map::<Seq<char>, T::V>::empty(),
            m.names().len() == 0,
    {
        let m = NameMap { names: Vec::new(), values: Vec::new() };
        assert(m@ =~= Map::<Seq<char>, T::V>::empty());
        m
    }

    /// The number of entries.
    pub fn len(&self) -> (n: usize)
        ensures
            n == self.names().len(),
    {
        self.names.len()
    }

    /// The name at position `i`.
    pub fn name_at(&self, i: usize) -> (name: &String)
        requires
            i < self.names().len(),
        ensures
            name@ == self.names()[i as int],
    {
        &self.names[i]
    }

    /// The value at position `i`.
    pub fn value_at(&self, i: usize) -> (value: &T)
        requires
            i < self.values().len(),
        ensures
            *value == self.values()[i as int],
    {
        &self.values[i]
    }

    /// The position at which `name` stands or would have to be put in, and
    /// whether it stands there.
    fn position(&self, name: &str) -> (r: (usize, bool))
        requires
            self.wf(),
        ensures
            r.0 <= self.names().len(),
            forall|j: int| 0 <= j < r.0 ==> name_precedes(self.names()[j], name@),
            r.1 ==> r.0 < self.names().len() && self.names()[r.0 as int] == name@,
            !r.1 && r.0 < self.names().len() ==> name_precedes(name@, self.names()[r.0 as int]),
    {
        let mut i: usize = 0;
        while i < self.names.len()
            invariant
                i <= self.names().len(),
                self.names().len() == self.names@.len(),
                forall|j: int| 0 <= j < i ==> name_precedes(self.names()[j], name@),
            decreases self.names.len() - i,
        {
            match compare_names(self.names[i].as_str(), name) {
                NameOrder::Before => {
                    i += 1;
                },
                NameOrder::Same => {
                    return (i, true);
                },
                NameOrder::After => {
                    return (i, false);
                },
            }
        }
        (i, false)
    }

    /// The position of `name`, if the map holds it.
    pub fn find(&self, name: &str) -> (r: Option<usize>)
        requires
            self.wf(),
        ensures
            match r {
                Some(i) => i < self.names().len() && self.names()[i as int] == name@,
                None => !self@.dom().contains(name@),
            },
            r is Some <==> self@.dom().contains(name@),
    {
        let (pos, found) = self.position(name);
        if found {
            proof {
                self.lemma_entry(pos as int);
            }
            Some(pos)
        } else {
            proof {
                lemma_insert_increasing(self.names(), pos as int, name@);
            }
            None
        }
    }

    /// The value of `name`, if the map holds it.
    pub fn get(&self, name: &str) -> (r: Option<&T>)
        requires
            self.wf(),
        ensures
            match r {
                Some(value) => self@.dom().contains(name@) && value@ == self@[name@],
                None => !self@.dom().contains(name@),
            },
    {
        match self.find(name) {
            Some(i) => {
                proof {
                    self.lemma_entry(i as int);
                }
                Some(&self.values[i])
            },
            None => None,
        }
    }

    /// Gives `name` the value `value`, in place of the value it had, if any.
    pub fn insert(&mut self, name: String, value: T)
        requires
            old(self).wf(),
        ensures
            final(self).wf(),
            final(self)@ == old(self)@.insert(name@, value@),
    {
        let (pos, found) = self.position(name.as_str());
        let ghost names0 = self.names();
        let ghost views0 = self.value_views();
        if found {
            self.values.set(pos, value);
            proof {
                assert(self.names() == names0);
                assert(self.value_views() =~= views0.update(pos as int, value@));
                lemma_lookup_update(names0, views0, pos as int, value@);
            }
        } else {
            proof {
                lemma_insert_increasing(names0, pos as int, name@);
                lemma_lookup_insert(names0, views0, pos as int, name@, value@);
            }
            self.names.insert(pos, name);
            self.values.insert(pos, value);
            proof {
                assert(self.names() =~= names0.insert(pos as int, name@));
                assert(self.value_views() =~= views0.insert(pos as int, value@));
            }
        }
    }

    /// Takes `name` and its value out of the map.
    pub fn remove(&mut self, name: &str) -> (r: Option<T>)
        requires
            old(self).wf(),
        ensures
            final(self).wf(),
            final(self)@ == old(self)@.remove(name@),
            match r {
                Some(value) => old(self)@.dom().contains(name@) && value@ == old(self)@[name@],
                None => !old(self)@.dom().contains(name@),
            },
    {
        let ghost names0 = self.names();
        let ghost views0 = self.value_views();
        match self.find(name) {
            Some(i) => {
                proof {
                    self.lemma_entry(i as int);
                    lemma_lookup_remove(names0, views0, i as int);
                }
                let _ = self.names.remove(i);
                let value = self.values.remove(i);
                proof {
                    assert(self.names() =~= names0.remove(i as int));
                    assert(self.value_views() =~= views0.remove(i as int));
                }
                Some(value)
            },
            None => {
                assert(self@ =~= self@.remove(name@));
                None
            },
        }
    }

    /// The map is walked in the increasing order of the names of its view.
    pub proof fn lemma_walked_in_order(&self)
        requires
            self.wf(),
        ensures
            self.names() == names_of(self@),
            self.value_views() == values_of(self@),
    {
        lemma_walk(self.names(), self.value_views());
    }

    /// Two maps with the same view are walked alike.
    pub proof fn lemma_same_view_same_walk(&self, other: &Self)
        requires
            self.wf(),
            other.wf(),
            self@ == other@,
        ensures
            self.names() == other.names(),
            self.value_views() == other.value_views(),
    {
        self.lemma_walked_in_order();
        other.lemma_walked_in_order();
    }

    /// Gives every name of `other` the value it has there.
    pub fn extend(&mut self, other: NameMap<T>)
        requires
            old(self).wf(),
            other.wf(),
        ensures
            final(self).wf(),
            final(self)@ == old(self)@.union_prefer_right(other@),
    {
        let ghost names0 = other.names();
        let ghost views0 = other.value_views();
        let ghost start = self@;
        let NameMap { names: mut names, values: mut values } = other;
        let mut n: usize = names.len();
        while n > 0
            invariant
                self.wf(),
                names0.len() == views0.len(),
                n <= names0.len(),
                names@.len() == n,
                values@.len() == n,
                forall|i: int| 0 <= i < n ==> (#[trigger] names@[i])@ == names0[i],
                forall|i: int| 0 <= i < n ==> (#[trigger] values@[i])@ == views0[i],
                self@ == merged_from(start, names0, views0, n as int),
            decreases n,
        {
            let name = names.pop().unwrap();
            let value = values.pop().unwrap();
            self.insert(name, value);
            n -= 1;
        }
        proof {
            lemma_merged(start, names0, views0);
        }
    }
}

} // verus!
