//! Text in dictionary order, and tables of texts keyed by text.
use vstd::prelude::*;

use crate::text::{chars_of, views};

verus! {

/// Does `a` stand before `b` in dictionary order, by code point?
pub open spec fn precedes(a: Seq<char>, b: Seq<char>) -> bool
    decreases a.len(),
{
    if b.len() == 0 {
        false
    } else if a.len() == 0 {
        true
    } else if a[0] != b[0] {
        a[0] < b[0]
    } else {
        precedes(a.skip(1), b.skip(1))
    }
}

/// How two texts stand to each other in dictionary order.
#[derive(Clone, Copy, Debug, PartialEq, Eq, Structural)]
pub enum Standing {
    Before,
    Same,
    After,
}

/// Nothing precedes itself.
pub proof fn lemma_precedes_irreflexive(a: Seq<char>)
    ensures
        !precedes(a, a),
    decreases a.len(),
{
    if a.len() > 0 {
        lemma_precedes_irreflexive(a.skip(1));
    }
}

/// Dictionary order is transitive.
pub proof fn lemma_precedes_transitive(a: Seq<char>, b: Seq<char>, c: Seq<char>)
    requires
        precedes(a, b),
        precedes(b, c),
    ensures
        precedes(a, c),
    decreases a.len(),
{
    if a.len() > 0 && b.len() > 0 && c.len() > 0 && a[0] == b[0] && b[0] == c[0] {
        lemma_precedes_transitive(a.skip(1), b.skip(1), c.skip(1));
    }
}

/// Of two different texts one precedes the other.
pub proof fn lemma_precedes_total(a: Seq<char>, b: Seq<char>)
    ensures
        a == b || precedes(a, b) || precedes(b, a),
    decreases a.len(),
{
    if a.len() == 0 {
        if b.len() == 0 {
            assert(a =~= b);
        }
    } else if b.len() > 0 && a[0] == b[0] {
        lemma_precedes_total(a.skip(1), b.skip(1));
        if a.skip(1) == b.skip(1) {
            assert(a =~= seq![a[0]] + a.skip(1));
            assert(b =~= seq![b[0]] + b.skip(1));
        }
    }
}

/// How `a` stands to `b`.
pub fn standing(a: &str, b: &str) -> (r: Standing)
    ensures
        match r {
            Standing::Before => precedes(a@, b@),
            Standing::Same => a@ == b@,
            Standing::After => precedes(b@, a@),
        },
{
    let v = chars_of(a);
    let w = chars_of(b);
    let mut i: usize = 0;
    proof {
        assert(a@.skip(0) =~= a@);
        assert(b@.skip(0) =~= b@);
    }
    while i < v.len() && i < w.len() && v[i] == w[i]
        invariant
            v@ == a@,
            w@ == b@,
            i <= v.len(),
            i <= w.len(),
            a@.take(i as int) == b@.take(i as int),
            precedes(a@, b@) == precedes(a@.skip(i as int), b@.skip(i as int)),
            precedes(b@, a@) == precedes(b@.skip(i as int), a@.skip(i as int)),
        decreases v.len() - i,
    {
        proof {
            assert(a@.skip(i as int)[0] == a@[i as int]);
            assert(b@.skip(i as int)[0] == b@[i as int]);
            assert(a@.skip(i as int).skip(1) =~= a@.skip(i + 1));
            assert(b@.skip(i as int).skip(1) =~= b@.skip(i + 1));
            assert(a@.take(i + 1) =~= a@.take(i as int).push(a@[i as int]));
            assert(b@.take(i + 1) =~= b@.take(i as int).push(b@[i as int]));
        }
        i = i + 1;
    }
    proof {
        if i < v.len() {
            assert(a@.skip(i as int)[0] == a@[i as int]);
        }
        if i < w.len() {
            assert(b@.skip(i as int)[0] == b@[i as int]);
        }
    }
    if i == v.len() {
        if i == w.len() {
            assert(a@.take(i as int) =~= a@);
            assert(b@.take(i as int) =~= b@);
            Standing::Same
        } else {
            Standing::Before
        }
    } else if i == w.len() {
        Standing::After
    } else if v[i] < w[i] {
        Standing::Before
    } else {
        Standing::After
    }
}

/// The texts stand in strictly ascending order.
pub open spec fn ascending(keys: Seq<Seq<char>>) -> bool {
    forall|i: int, j: int| 0 <= i < j < keys.len() ==> precedes(#[trigger] keys[i], #[trigger] keys[j])
}

/// Two ascending sequences with the same members are the same sequence.
pub proof fn lemma_ascending_unique(a: Seq<Seq<char>>, b: Seq<Seq<char>>)
    requires
        ascending(a),
        ascending(b),
        forall|k: Seq<char>| a.contains(k) <==> b.contains(k),
    ensures
        a == b,
    decreases a.len(),
{
    if a.len() == 0 {
        if b.len() > 0 {
            assert(b.contains(b[0]));
            assert(a.contains(b[0]));
        }
        assert(a =~= b);
    } else {
        assert(a.contains(a.last()));
        assert(b.contains(a.last()));
        let i = choose|i: int| 0 <= i < b.len() && b[i] == a.last();
        assert(b.contains(b.last()));
        assert(a.contains(b.last()));
        let j = choose|j: int| 0 <= j < a.len() && a[j] == b.last();
        if i < b.len() - 1 {
            assert(precedes(b[i], b[b.len() - 1]));
            if j < a.len() - 1 {
                assert(precedes(a[j], a[a.len() - 1]));
                lemma_precedes_transitive(a.last(), b.last(), a.last());
            }
            lemma_precedes_irreflexive(a.last());
        }
        assert(a.last() == b.last());
        let x = a.drop_last();
        let y = b.drop_last();
        assert forall|k: Seq<char>| x.contains(k) <==> y.contains(k) by {
            if x.contains(k) {
                let p = choose|p: int| 0 <= p < x.len() && x[p] == k;
                assert(a[p] == k);
                assert(a.contains(k));
                assert(precedes(a[p], a[a.len() - 1]));
                lemma_precedes_irreflexive(k);
                let q = choose|q: int| 0 <= q < b.len() && b[q] == k;
                assert(q < b.len() - 1);
                assert(y[q] == k);
            }
            if y.contains(k) {
                let p = choose|p: int| 0 <= p < y.len() && y[p] == k;
                assert(b[p] == k);
                assert(b.contains(k));
                assert(precedes(b[p], b[b.len() - 1]));
                lemma_precedes_irreflexive(k);
                let q = choose|q: int| 0 <= q < a.len() && a[q] == k;
                assert(q < a.len() - 1);
                assert(x[q] == k);
            }
        }
        lemma_ascending_unique(x, y);
        assert(a =~= x.push(a.last()));
        assert(b =~= y.push(b.last()));
    }
}

/// The keys of rows.
pub open spec fn keys_of(rows: Seq<(String, String)>) -> Seq<Seq<char>> {
    rows.map_values(|r: (String, String)| r.0@)
}

/// The mapping that rows with distinct keys write down.
pub open spec fn rows_map(rows: Seq<(String, String)>) -> Map<Seq<char>, Seq<char>> {
    Map::new(
        |k: Seq<char>| keys_of(rows).contains(k),
        |k: Seq<char>| rows[keys_of(rows).index_of(k)].1@,
    )
}

/// A mapping from texts to texts, kept in the dictionary order of its keys.
#[derive(Debug, PartialEq, Eq)]
pub struct Table {
    rows: Vec<(String, String)>,
}

impl View for Table {
    type V = Map<Seq<char>, Seq<char>>;

    closed spec fn view(&self) -> Map<Seq<char>, Seq<char>> {
        rows_map(self.rows@)
    }
}

proof fn lemma_row(rows: Seq<(String, String)>, i: int)
    requires
        ascending(keys_of(rows)),
        0 <= i < rows.len(),
    ensures
        rows_map(rows).contains_key(rows[i].0@),
        rows_map(rows)[rows[i].0@] == rows[i].1@,
{
    let keys = keys_of(rows);
    assert(keys[i] == rows[i].0@);
    assert(keys.contains(keys[i]));
    let j = keys.index_of(keys[i]);
    assert(keys[j] == keys[i]);
    lemma_precedes_irreflexive(keys[i]);
    if i < j {
        assert(precedes(keys[i], keys[j]));
    }
    if j < i {
        assert(precedes(keys[j], keys[i]));
    }
}

impl Table {
    #[verifier::type_invariant]
    spec fn in_order(self) -> bool {
        ascending(keys_of(self.rows@))
    }

    /// The keys in dictionary order.
    pub closed spec fn keys(self) -> Seq<Seq<char>> {
        keys_of(self.rows@)
    }

    /// An empty table.
    pub fn new() -> (r: Table)
        ensures
            r@ == Map::<Seq<char>, Seq<char>>::empty(),
            r.keys() == Seq::<Seq<char>>::empty(),
    {
        let r = Table { rows: Vec::new() };
        assert(r@ =~= Map::<Seq<char>, Seq<char>>::empty());
        assert(r.keys() =~= Seq::<Seq<char>>::empty());
        r
    }

    /// The position of the first row whose key does not precede `key`, and whether it has that
    /// key.
    fn position(&self, key: &str) -> (r: (usize, bool))
        ensures
            r.0 <= self.rows@.len(),
            forall|i: int| 0 <= i < r.0 ==> precedes(#[trigger] self.rows@[i].0@, key@),
            r.1 ==> r.0 < self.rows@.len() && self.rows@[r.0 as int].0@ == key@,
            !r.1 ==> forall|i: int|
                r.0 <= i < self.rows@.len() ==> precedes(key@, #[trigger] self.rows@[i].0@),
    {
        proof {
            use_type_invariant(self);
        }
        let mut i: usize = 0;
        while i < self.rows.len()
            invariant
                i <= self.rows@.len(),
                ascending(keys_of(self.rows@)),
                forall|k: int| 0 <= k < i ==> precedes(#[trigger] self.rows@[k].0@, key@),
            decreases self.rows.len() - i,
        {
            match standing(self.rows[i].0.as_str(), key) {
                Standing::Before => {},
                Standing::Same => {
                    return (i, true);
                },
                Standing::After => {
                    proof {
                        assert forall|k: int| i <= k < self.rows@.len() implies precedes(
                            key@,
                            #[trigger] self.rows@[k].0@,
                        ) by {
                            let keys = keys_of(self.rows@);
                            assert(keys[i as int] == self.rows@[i as int].0@);
                            assert(keys[k] == self.rows@[k].0@);
                            if i < k {
                                lemma_precedes_transitive(key@, keys[i as int], keys[k]);
                            }
                        }
                    }
                    return (i, false);
                },
            }
            i = i + 1;
        }
        (i, false)
    }

    proof fn lemma_absent(&self, key: Seq<char>, at: int)
        requires
            0 <= at <= self.rows@.len(),
            forall|i: int| 0 <= i < at ==> precedes(#[trigger] self.rows@[i].0@, key),
            forall|i: int| at <= i < self.rows@.len() ==> precedes(key, #[trigger] self.rows@[i].0@),
        ensures
            !keys_of(self.rows@).contains(key),
    {
        let keys = keys_of(self.rows@);
        if keys.contains(key) {
            let i = choose|i: int| 0 <= i < keys.len() && keys[i] == key;
            assert(keys[i] == self.rows@[i].0@);
            lemma_precedes_irreflexive(key);
        }
    }

    /// The value kept under `key`.
    pub fn get(&self, key: &str) -> (r: Option<String>)
        ensures
            r matches Some(v) ==> self@.contains_key(key@) && self@[key@] == v@,
            r is None <==> !self@.contains_key(key@),
    {
        proof {
            use_type_invariant(self);
        }
        let (at, found) = self.position(key);
        if found {
            proof {
                lemma_row(self.rows@, at as int);
            }
            Some(self.rows[at].1.clone())
        } else {
            proof {
                self.lemma_absent(key@, at as int);
            }
            None
        }
    }

    /// Keeps `value` under `key`, in place of any value kept there before.
    pub fn insert(&mut self, key: String, value: String)
        ensures
            final(self)@ == old(self)@.insert(key@, value@),
    {
        proof {
            use_type_invariant(&*self);
        }
        let ghost old_map = self@;
        let (at, found) = self.position(key.as_str());
        let mut rows: Vec<(String, String)> = Vec::new();
        std::mem::swap(&mut rows, &mut self.rows);
        let ghost before = rows@;
        if found {
            rows.set(at, (key, value));
            proof {
                assert(keys_of(rows@) =~= keys_of(before));
                assert forall|k: Seq<char>| #[trigger] keys_of(rows@).contains(k) implies rows_map(
                    rows@,
                )[k] == old_map.insert(key@, value@)[k] by {
                    let i = keys_of(rows@).index_of(k);
                    assert(keys_of(rows@)[i] == k);
                    lemma_row(before, i);
                    lemma_row(rows@, i);
                    lemma_row(rows@, at as int);
                }
                assert(keys_of(before)[at as int] == key@);
                assert(rows_map(rows@) =~= old_map.insert(key@, value@));
            }
        } else {
            proof {
                let keys = keys_of(before);
                assert forall|i: int| 0 <= i < at implies precedes(#[trigger] keys[i], key@) by {
                    assert(keys[i] == before[i].0@);
                }
                assert forall|i: int| at <= i < keys.len() implies precedes(
                    key@,
                    #[trigger] keys[i],
                ) by {
                    assert(keys[i] == before[i].0@);
                }
            }
            rows.insert(at, (key, value));
            proof {
                let keys = keys_of(before);
                let new_keys = keys_of(rows@);
                assert(new_keys =~= keys.insert(at as int, key@));
                assert(ascending(new_keys));
                assert(new_keys[at as int] == key@);
                assert forall|k: Seq<char>| new_keys.contains(k) <==> keys.contains(k) || k
                    == key@ by {
                    if new_keys.contains(k) {
                        let i = choose|i: int| 0 <= i < new_keys.len() && new_keys[i] == k;
                        if i < at {
                            assert(keys[i] == k);
                        } else if i > at {
                            assert(keys[i - 1] == k);
                        }
                    }
                    if keys.contains(k) {
                        let i = choose|i: int| 0 <= i < keys.len() && keys[i] == k;
                        if i < at {
                            assert(new_keys[i] == k);
                        } else {
                            assert(new_keys[i + 1] == k);
                        }
                    }
                    if k == key@ {
                        assert(new_keys[at as int] == k);
                    }
                }
                assert forall|k: Seq<char>| #[trigger] new_keys.contains(k) implies rows_map(
                    rows@,
                )[k] == old_map.insert(key@, value@)[k] by {
                    let i = new_keys.index_of(k);
                    assert(new_keys[i] == k);
                    lemma_row(rows@, i);
                    lemma_row(rows@, at as int);
                    if i < at {
                        assert(keys[i] == k);
                        lemma_row(before, i);
                        assert(rows@[i] == before[i]);
                    } else if i > at {
                        assert(keys[i - 1] == k);
                        lemma_row(before, i - 1);
                        assert(rows@[i] == before[i - 1]);
                    }
                }
                assert(rows_map(rows@) =~= old_map.insert(key@, value@));
            }
        }
        self.rows = rows;
    }

    /// Forgets `key`.
    pub fn remove(&mut self, key: &str)
        ensures
            final(self)@ == old(self)@.remove(key@),
    {
        proof {
            use_type_invariant(&*self);
        }
        let ghost old_map = self@;
        let (at, found) = self.position(key);
        if found {
            let mut rows: Vec<(String, String)> = Vec::new();
            std::mem::swap(&mut rows, &mut self.rows);
            let ghost before = rows@;
            rows.remove(at);
            proof {
                let keys = keys_of(before);
                let new_keys = keys_of(rows@);
                assert(new_keys =~= keys.remove(at as int));
                assert(ascending(new_keys));
                assert(keys[at as int] == key@);
                lemma_precedes_irreflexive(key@);
                assert forall|k: Seq<char>| new_keys.contains(k) <==> keys.contains(k) && k
                    != key@ by {
                    if new_keys.contains(k) {
                        let i = choose|i: int| 0 <= i < new_keys.len() && new_keys[i] == k;
                        if i < at {
                            assert(keys[i] == k);
                            assert(precedes(keys[i], keys[at as int]));
                        } else {
                            assert(keys[i + 1] == k);
                            assert(precedes(keys[at as int], keys[i + 1]));
                        }
                    }
                    if keys.contains(k) && k != key@ {
                        let i = choose|i: int| 0 <= i < keys.len() && keys[i] == k;
                        if i < at {
                            assert(new_keys[i] == k);
                        } else {
                            assert(new_keys[i - 1] == k);
                        }
                    }
                }
                assert forall|k: Seq<char>| #[trigger] new_keys.contains(k) implies rows_map(
                    rows@,
                )[k] == old_map.remove(key@)[k] by {
                    let i = new_keys.index_of(k);
                    assert(new_keys[i] == k);
                    lemma_row(rows@, i);
                    if i < at {
                        assert(keys[i] == k);
                        lemma_row(before, i);
                    } else {
                        assert(keys[i + 1] == k);
                        lemma_row(before, i + 1);
                    }
                }
                assert(rows_map(rows@) =~= old_map.remove(key@));
            }
            self.rows = rows;
        } else {
            proof {
                self.lemma_absent(key@, at as int);
                assert(old_map.remove(key@) =~= old_map);
            }
        }
    }

    /// How many keys the table has.
    pub fn len(&self) -> (r: usize)
        ensures
            r == self.keys().len(),
    {
        self.rows.len()
    }

    /// Has the table no key at all?
    pub fn is_empty(&self) -> (r: bool)
        ensures
            r == (self@ == Map::<Seq<char>, Seq<char>>::empty()),
    {
        let r = self.rows.len() == 0;
        proof {
            if r {
                assert(self@ =~= Map::<Seq<char>, Seq<char>>::empty());
            } else {
                use_type_invariant(self);
                lemma_row(self.rows@, 0);
            }
        }
        r
    }

    /// The keys in dictionary order.
    pub fn sorted_keys(&self) -> (r: Vec<String>)
        ensures
            views(r@) == self.keys(),
            ascending(self.keys()),
            forall|k: Seq<char>| self.keys().contains(k) <==> self@.contains_key(k),
    {
        proof {
            use_type_invariant(self);
        }
        let mut r: Vec<String> = Vec::new();
        let mut i: usize = 0;
        while i < self.rows.len()
            invariant
                i <= self.rows@.len(),
                r.len() == i,
                forall|k: int| 0 <= k < i ==> (#[trigger] r@[k])@ == self.rows@[k].0@,
            decreases self.rows.len() - i,
        {
            r.push(self.rows[i].0.clone());
            i = i + 1;
        }
        assert(views(r@) =~= self.keys());
        r
    }

    /// A table with the same keys and values.
    pub fn duplicate(&self) -> (r: Table)
        ensures
            r@ == self@,
            r.keys() == self.keys(),
    {
        proof {
            use_type_invariant(self);
        }
        let mut rows: Vec<(String, String)> = Vec::new();
        let mut i: usize = 0;
        while i < self.rows.len()
            invariant
                i <= self.rows@.len(),
                rows@ == self.rows@.take(i as int),
            decreases self.rows.len() - i,
        {
            rows.push((self.rows[i].0.clone(), self.rows[i].1.clone()));
            i = i + 1;
            assert(self.rows@.take(i as int) =~= self.rows@.take(i - 1).push(self.rows@[i - 1]));
        }
        assert(rows@ =~= self.rows@);
        Table { rows }
    }
}

/// The keys of a table are the one ascending sequence of the keys that it maps.
pub proof fn law_keys_are_determined(a: Table, b: Table)
    requires
        ascending(a.keys()),
        ascending(b.keys()),
        a@ == b@,
    ensures
        a.keys() == b.keys(),
{
    assert forall|k: Seq<char>| a.keys().contains(k) <==> b.keys().contains(k) by {
        assert(a@.contains_key(k) <==> a.keys().contains(k));
        assert(b@.contains_key(k) <==> b.keys().contains(k));
    }
    lemma_ascending_unique(a.keys(), b.keys());
}

/// Two texts stand as their first different characters do, by code point; a text stands before every
/// longer one that begins with it.
pub proof fn law_first_difference_decides(
    common: Seq<char>,
    x: char,
    a: Seq<char>,
    y: char,
    b: Seq<char>,
)
    ensures
        x != y ==> (precedes(common + seq![x] + a, common + seq![y] + b) <==> x < y),
        precedes(common, common + seq![y] + b),
        !precedes(common + seq![y] + b, common),
        !precedes(common, common),
    decreases common.len(),
{
    let one = common + seq![x] + a;
    let two = common + seq![y] + b;
    lemma_precedes_irreflexive(common);
    if common.len() > 0 {
        assert(one.skip(1) =~= common.skip(1) + seq![x] + a);
        assert(two.skip(1) =~= common.skip(1) + seq![y] + b);
        law_first_difference_decides(common.skip(1), x, a, y, b);
    }
}

/// Rows are seen by their keys: in their order, and each with its value.
pub proof fn law_rows_are_found_by_their_keys(rows: Seq<(String, String)>, i: int, key: Seq<char>)
    requires
        ascending(keys_of(rows)),
    ensures
        keys_of(rows).len() == rows.len(),
        0 <= i < rows.len() ==> keys_of(rows)[i] == rows[i].0@,
        0 <= i < rows.len() ==> rows_map(rows).contains_key(rows[i].0@) && rows_map(
            rows,
        )[rows[i].0@] == rows[i].1@,
        rows_map(rows).contains_key(key) ==> exists|k: int|
            0 <= k < rows.len() && (#[trigger] rows[k]).0@ == key,
{
    if 0 <= i < rows.len() {
        lemma_row(rows, i);
    }
    if rows_map(rows).contains_key(key) {
        let k = keys_of(rows).index_of(key);
        assert(keys_of(rows)[k] == key);
        assert(rows[k].0@ == key);
    }
}

/// Ascending keys differ, and stand in dictionary order.
pub proof fn law_ascending_keys_differ(keys: Seq<Seq<char>>, i: int, j: int)
    requires
        ascending(keys),
        0 <= i < j < keys.len(),
    ensures
        precedes(keys[i], keys[j]),
        keys[i] != keys[j],
{
    lemma_precedes_irreflexive(keys[i]);
}

} // verus!
