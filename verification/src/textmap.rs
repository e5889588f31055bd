//! An ordered map keyed by text: the entries are kept sorted by key in the
//! order in which Rust orders `String`s (lexicographic by code point), so that
//! walking the map visits keys as a `BTreeMap<String, _>` would.
use vstd::prelude::*;
use crate::text::{chars_of, seq_eq};

verus! {

/// Lexicographic order on character sequences (code point by code point).
pub open spec fn seq_lt(a: Seq<char>, b: Seq<char>) -> bool
    decreases a.len(),
{
    if a.len() == 0 {
        b.len() > 0
    } else if b.len() == 0 {
        false
    } else if a[0] != b[0] {
        a[0] < b[0]
    } else {
        seq_lt(a.drop_first(), b.drop_first())
    }
}

pub proof fn lemma_seq_lt_irreflexive(a: Seq<char>)
    ensures
        !seq_lt(a, a),
    decreases a.len(),
{
    if a.len() > 0 {
        lemma_seq_lt_irreflexive(a.drop_first());
    }
}

pub proof fn lemma_seq_lt_transitive(a: Seq<char>, b: Seq<char>, c: Seq<char>)
    requires
        seq_lt(a, b),
        seq_lt(b, c),
    ensures
        seq_lt(a, c),
    decreases a.len(),
{
    if a.len() > 0 && b.len() > 0 && c.len() > 0 {
        if a[0] == b[0] && b[0] == c[0] {
            lemma_seq_lt_transitive(a.drop_first(), b.drop_first(), c.drop_first());
        }
    }
}

pub proof fn lemma_seq_lt_total(a: Seq<char>, b: Seq<char>)
    requires
        a != b,
    ensures
        seq_lt(a, b) || seq_lt(b, a),
    decreases a.len(),
{
    if a.len() > 0 && b.len() > 0 {
        if a[0] == b[0] {
            if a.drop_first() == b.drop_first() {
                assert(a =~= seq![a[0]] + a.drop_first());
                assert(b =~= seq![b[0]] + b.drop_first());
            }
            lemma_seq_lt_total(a.drop_first(), b.drop_first());
        }
    } else if a.len() == 0 && b.len() == 0 {
        assert(a =~= b);
    }
}

pub proof fn lemma_seq_lt_asym(a: Seq<char>, b: Seq<char>)
    requires
        seq_lt(a, b),
    ensures
        !seq_lt(b, a),
{
    if seq_lt(b, a) {
        lemma_seq_lt_transitive(a, b, a);
        lemma_seq_lt_irreflexive(a);
    }
}

/// Outcome of comparing two keys.
#[derive(Debug)]
pub enum KeyOrder {
    Less,
    Equal,
    Greater,
}

/// Compares two character sequences in `seq_lt` order.
pub fn key_order(a: &Vec<char>, b: &Vec<char>) -> (r: KeyOrder)
    ensures
        r is Less <==> seq_lt(a@, b@),
        r is Equal <==> a@ == b@,
        r is Greater <==> seq_lt(b@, a@),
{
    let mut i: usize = 0;
    while i < a.len() && i < b.len() && a[i] == b[i]
        invariant
            i <= a@.len(),
            i <= b@.len(),
            a@.subrange(0, i as int) == b@.subrange(0, i as int),
        decreases a@.len() - i,
    {
        assert(a@.subrange(0, i + 1) =~= a@.subrange(0, i as int).push(a@[i as int]));
        assert(b@.subrange(0, i + 1) =~= b@.subrange(0, i as int).push(b@[i as int]));
        i = i + 1;
    }
    proof {
        lemma_seq_lt_prefix(a@, b@, i as int);
    }
    if i < a.len() && i < b.len() {
        let x: char = a[i];
        let y: char = b[i];
        proof {
            if a@ == b@ {
                assert(a@[i as int] == b@[i as int]);
            }
            let sa = a@.subrange(i as int, a@.len() as int);
            let sb = b@.subrange(i as int, b@.len() as int);
            assert(sa[0] == x);
            assert(sb[0] == y);
            assert(x != y);
        }
        proof {
            lemma_seq_lt_prefix(b@, a@, i as int);
        }
        if x < y {
            proof { lemma_seq_lt_asym(a@, b@); }
            KeyOrder::Less
        } else {
            proof { lemma_seq_lt_asym(b@, a@); }
            KeyOrder::Greater
        }
    } else if i < b.len() {
        proof {
            lemma_seq_lt_asym(a@, b@);
        }
        KeyOrder::Less
    } else if i < a.len() {
        proof {
            lemma_seq_lt_prefix(b@, a@, i as int);
            lemma_seq_lt_asym(b@, a@);
        }
        KeyOrder::Greater
    } else {
        proof {
            assert(a@ =~= a@.subrange(0, i as int));
            assert(b@ =~= b@.subrange(0, i as int));
            lemma_seq_lt_irreflexive(a@);
        }
        KeyOrder::Equal
    }
}

/// Comparing past a common prefix of length `i`.
pub proof fn lemma_seq_lt_prefix(a: Seq<char>, b: Seq<char>, i: int)
    requires
        0 <= i <= a.len(),
        i <= b.len(),
        a.subrange(0, i) == b.subrange(0, i),
    ensures
        seq_lt(a, b) == seq_lt(a.subrange(i, a.len() as int), b.subrange(i, b.len() as int)),
    decreases i,
{
    if i > 0 {
        assert(a[0] == a.subrange(0, i)[0]);
        assert(b[0] == b.subrange(0, i)[0]);
        let a1 = a.drop_first();
        let b1 = b.drop_first();
        assert forall|k: int| 0 <= k < i - 1 implies #[trigger] a1.subrange(0, i - 1)[k] == b1.subrange(0, i - 1)[k] by {
            assert(a.subrange(0, i)[k + 1] == b.subrange(0, i)[k + 1]);
            assert(a1.subrange(0, i - 1)[k] == a[k + 1]);
            assert(b1.subrange(0, i - 1)[k] == b[k + 1]);
            assert(a.subrange(0, i)[k + 1] == a[k + 1]);
            assert(b.subrange(0, i)[k + 1] == b[k + 1]);
        }
        assert(a1.subrange(0, i - 1) =~= b1.subrange(0, i - 1));
        lemma_seq_lt_prefix(a1, b1, i - 1);
        assert(a1.subrange(i - 1, a1.len() as int) =~= a.subrange(i, a.len() as int));
        assert(b1.subrange(i - 1, b1.len() as int) =~= b.subrange(i, b.len() as int));
    } else {
        assert(a.subrange(0, a.len() as int) =~= a);
        assert(b.subrange(0, b.len() as int) =~= b);
    }
}

/// Keys in strictly increasing `seq_lt` order.
pub open spec fn sorted_keys(keys: Seq<Seq<char>>) -> bool {
    forall|i: int, j: int| 0 <= i < j < keys.len() ==> seq_lt(#[trigger] keys[i], #[trigger] keys[j])
}

/// An ordered text-keyed map.
#[derive(Debug)]
pub struct TextMap<V> {
    entries: Vec<(String, V)>,
}

impl<V> TextMap<V> {
    /// The keys, in increasing order.
    pub closed spec fn key_seq(&self) -> Seq<Seq<char>> {
        entries_keys(self.entries@)
    }

    /// The values, in the order of their keys.
    pub closed spec fn value_seq(&self) -> Seq<V> {
        self.entries@.map_values(|e: (String, V)| e.1)
    }

    #[verifier::type_invariant]
    closed spec fn wf(&self) -> bool {
        sorted_keys(self.key_seq())
    }

    /// The value stored under `k`, if any.
    pub open spec fn lookup(&self, k: Seq<char>) -> Option<V> {
        lookup_in(self.key_seq(), self.value_seq(), k)
    }

    /// The map as a mathematical map from key text to value.
    pub open spec fn as_map(&self) -> Map<Seq<char>, V> {
        Map::new(|k: Seq<char>| self.lookup(k) is Some, |k: Seq<char>| self.lookup(k)->0)
    }

    pub proof fn lemma_lengths(&self)
        ensures
            self.key_seq().len() == self.value_seq().len(),
    {
    }

    /// In a sorted key sequence, a key sits at exactly one index.
    proof fn lemma_lookup_at(&self, idx: int)
        requires
            0 <= idx < self.key_seq().len(),
            sorted_keys(self.key_seq()),
        ensures
            self.lookup(self.key_seq()[idx]) == Some(self.value_seq()[idx]),
    {
        let k = self.key_seq()[idx];
        assert forall|j: int| 0 <= j < idx implies self.key_seq()[j] != k by {
            assert(seq_lt(self.key_seq()[j], self.key_seq()[idx]));
            lemma_seq_lt_irreflexive(k);
        }
        lemma_lookup_first(self.key_seq(), self.value_seq(), k, idx);
    }

    /// A key that is found is one of the keys.
    pub proof fn lemma_lookup_some_key(&self, k: Seq<char>)
        ensures
            self.lookup(k) is Some ==> exists|j: int| 0 <= j < self.key_seq().len() && #[trigger] self.key_seq()[j] == k,
    {
        if !(exists|j: int| 0 <= j < self.key_seq().len() && #[trigger] self.key_seq()[j] == k) {
            lemma_lookup_absent(self.key_seq(), self.value_seq(), k);
        }
    }

    proof fn lemma_lookup_absent_here(&self, k: Seq<char>)
        requires
            forall|j: int| 0 <= j < self.key_seq().len() ==> self.key_seq()[j] != k,
        ensures
            self.lookup(k) is None,
    {
        lemma_lookup_absent(self.key_seq(), self.value_seq(), k);
    }

    pub fn new() -> (m: Self)
        ensures
            m.key_seq().len() == 0,
            m.value_seq().len() == 0,
            m.as_map() == Map::<Seq<char>, V>::empty(),
    {
        let m = TextMap { entries: Vec::new() };
        assert(m.as_map() =~= Map::<Seq<char>, V>::empty());
        m
    }

    pub fn len(&self) -> (n: usize)
        ensures
            n == self.key_seq().len(),
            n == self.value_seq().len(),
    {
        proof { use_type_invariant(self); }
        self.entries.len()
    }

    /// The key at position `i` in key order.
    pub fn key_at(&self, i: usize) -> (k: &String)
        requires
            i < self.key_seq().len(),
        ensures
            k@ == self.key_seq()[i as int],
    {
        &self.entries[i].0
    }

    /// The value at position `i` in key order.
    pub fn value_at(&self, i: usize) -> (v: &V)
        requires
            i < self.key_seq().len(),
        ensures
            *v == self.value_seq()[i as int],
            self.lookup(self.key_seq()[i as int]) == Some(*v),
    {
        proof {
            use_type_invariant(self);
            self.lemma_lookup_at(i as int);
        }
        &self.entries[i].1
    }

    /// Position of `key`, if present.
    pub fn position(&self, key: &str) -> (r: Option<usize>)
        ensures
            match r {
                Some(i) => i < self.key_seq().len() && self.key_seq()[i as int] == key@,
                None => forall|j: int| 0 <= j < self.key_seq().len() ==> self.key_seq()[j] != key@,
            },
    {
        let kv = chars_of(key);
        let mut i: usize = 0;
        while i < self.entries.len()
            invariant
                i <= self.key_seq().len(),
                self.entries@.len() == self.key_seq().len(),
                kv@ == key@,
                forall|j: int| 0 <= j < i ==> self.key_seq()[j] != key@,
            decreases self.key_seq().len() - i,
        {
            let ev = chars_of(self.entries[i].0.as_str());
            if seq_eq(&ev, &kv) {
                return Some(i);
            }
            i = i + 1;
        }
        None
    }

    /// Looks `key` up.
    pub fn get(&self, key: &str) -> (r: Option<&V>)
        ensures
            match r {
                Some(v) => self.lookup(key@) == Some(*v),
                None => self.lookup(key@) is None,
            },
    {
        match self.position(key) {
            Some(i) => {
                proof {
                    use_type_invariant(self);
                    self.lemma_lookup_at(i as int);
                }
                Some(&self.entries[i].1)
            },
            None => {
                proof { self.lemma_lookup_absent_here(key@); }
                None
            },
        }
    }

    pub fn contains_key(&self, key: &str) -> (r: bool)
        ensures
            r == (self.lookup(key@) is Some),
    {
        proof { use_type_invariant(self); }
        match self.position(key) {
            Some(i) => {
                proof { self.lemma_lookup_at(i as int); }
                true
            },
            None => {
                proof { self.lemma_lookup_absent_here(key@); }
                false
            },
        }
    }

    /// Inserts or replaces the value under `key`.
    pub fn insert(&mut self, key: String, value: V)
        ensures
            final(self).as_map() == old(self).as_map().insert(key@, value),
            forall|k: Seq<char>| #[trigger] final(self).lookup(k) == if k == key@ {
                Some(value)
            } else {
                old(self).lookup(k)
            },
    {
        proof { use_type_invariant(&*self); }
        let ghost old_self = *self;
        let ghost old_keys = self.key_seq();
        let ghost old_vals = self.value_seq();
        let kv = chars_of(key.as_str());
        let (i, replace) = insertion_point(&self.entries, &kv);
        let mut entries: Vec<(String, V)> = Vec::new();
        std::mem::swap(&mut entries, &mut self.entries);
        assert(entries@ == old_self.entries@);
        if replace {
            entries.set(i, (key, value));
            proof {
                assert(entries_keys(entries@) =~= old_keys.update(i as int, key@));
            }
        } else {
            entries.insert(i, (key, value));
            proof {
                let nk = entries_keys(entries@);
                assert(nk =~= old_keys.insert(i as int, key@));
                assert forall|a: int, b: int| 0 <= a < b < nk.len() implies seq_lt(
                    #[trigger] nk[a],
                    #[trigger] nk[b],
                ) by {
                    if b < i {
                    } else if b == i {
                        assert(seq_lt(old_keys[a], key@));
                    } else if a < i {
                        assert(seq_lt(old_keys[a], key@));
                        assert(seq_lt(key@, old_keys[i as int]));
                        if b - 1 > i {
                            assert(seq_lt(old_keys[i as int], old_keys[b - 1]));
                            lemma_seq_lt_transitive(key@, old_keys[i as int], old_keys[b - 1]);
                        }
                        lemma_seq_lt_transitive(old_keys[a], key@, old_keys[b - 1]);
                    } else if a == i {
                        if b - 1 > i {
                            assert(seq_lt(old_keys[i as int], old_keys[b - 1]));
                            lemma_seq_lt_transitive(key@, old_keys[i as int], old_keys[b - 1]);
                        }
                    } else {
                    }
                }
            }
        }
        self.entries = entries;
        proof {
            let new_keys = self.key_seq();
            if replace {
                assert(self.value_seq() =~= old_vals.update(i as int, value));
            } else {
                assert(self.value_seq() =~= old_vals.insert(i as int, value));
            }
            assert forall|k: Seq<char>| #[trigger] self.lookup(k) == if k == key@ {
                Some(value)
            } else {
                old_self.lookup(k)
            } by {
                if k == key@ {
                    self.lemma_lookup_at(i as int);
                } else {
                    if exists|j: int| 0 <= j < old_keys.len() && old_keys[j] == k {
                        let j = choose|j: int| 0 <= j < old_keys.len() && old_keys[j] == k;
                        old_self.lemma_lookup_at(j);
                        let nj = if replace || j < i { j } else { j + 1 };
                        assert(new_keys[nj] == k);
                        self.lemma_lookup_at(nj);
                    } else {
                        assert forall|j: int| 0 <= j < new_keys.len() implies new_keys[j] != k by {
                            if replace {
                                if j != i {
                                    assert(new_keys[j] == old_keys[j]);
                                }
                            } else if j < i {
                                assert(new_keys[j] == old_keys[j]);
                            } else if j > i {
                                assert(new_keys[j] == old_keys[j - 1]);
                            }
                        }
                        self.lemma_lookup_absent_here(k);
                        old_self.lemma_lookup_absent_here(k);
                    }
                }
            }
            assert(self.as_map() =~= old_self.as_map().insert(key@, value));
        }
    }

    /// Removes `key`, returning its value if it was present.
    pub fn remove(&mut self, key: &str) -> (r: Option<V>)
        ensures
            r == old(self).lookup(key@),
            final(self).as_map() == old(self).as_map().remove(key@),
            forall|k: Seq<char>| #[trigger] final(self).lookup(k) == if k == key@ {
                None
            } else {
                old(self).lookup(k)
            },
    {
        proof { use_type_invariant(&*self); }
        let ghost old_self = *self;
        let ghost old_keys = self.key_seq();
        match self.position(key) {
            None => {
                proof {
                    self.lemma_lookup_absent_here(key@);
                    assert(self.as_map() =~= old_self.as_map().remove(key@));
                }
                None
            },
            Some(i) => {
                proof { self.lemma_lookup_at(i as int); }
                let mut entries: Vec<(String, V)> = Vec::new();
                std::mem::swap(&mut entries, &mut self.entries);
                let (_k, v) = entries.remove(i);
                proof {
                    let nk = entries_keys(entries@);
                    assert(nk =~= old_keys.remove(i as int));
                    assert(sorted_keys(nk)) by {
                        assert forall|a: int, b: int| 0 <= a < b < nk.len() implies seq_lt(
                            #[trigger] nk[a],
                            #[trigger] nk[b],
                        ) by {
                            let oa = if a < i { a } else { a + 1 };
                            let ob = if b < i { b } else { b + 1 };
                            assert(seq_lt(old_keys[oa], old_keys[ob]));
                        }
                    }
                }
                self.entries = entries;
                proof {
                    let new_keys = self.key_seq();
                    assert(self.value_seq() =~= old_self.value_seq().remove(i as int));
                    assert forall|k: Seq<char>| #[trigger] self.lookup(k) == if k == key@ {
                        None
                    } else {
                        old_self.lookup(k)
                    } by {
                        if exists|j: int| 0 <= j < new_keys.len() && new_keys[j] == k {
                            let j = choose|j: int| 0 <= j < new_keys.len() && new_keys[j] == k;
                            let oj = if j < i { j } else { j + 1 };
                            assert(old_keys[oj] == k);
                            old_self.lemma_lookup_at(oj);
                            self.lemma_lookup_at(j);
                            if k == key@ {
                                if oj < i {
                                    assert(seq_lt(old_keys[oj], old_keys[i as int]));
                                } else {
                                    assert(seq_lt(old_keys[i as int], old_keys[oj]));
                                }
                                lemma_seq_lt_irreflexive(k);
                            }
                        } else {
                            self.lemma_lookup_absent_here(k);
                            if k == key@ {
                            } else if exists|j: int| 0 <= j < old_keys.len() && old_keys[j] == k {
                                let j = choose|j: int| 0 <= j < old_keys.len() && old_keys[j] == k;
                                assert(j != i);
                                let nj = if j < i { j } else { j - 1 };
                                assert(new_keys[nj] == k);
                            } else {
                                old_self.lemma_lookup_absent_here(k);
                            }
                        }
                    }
                    assert(self.as_map() =~= old_self.as_map().remove(key@));
                }
                Some(v)
            },
        }
    }
}

/// A text-valued map as a map between texts.
pub open spec fn text_map_view(m: TextMap<String>) -> Map<Seq<char>, Seq<char>> {
    m.as_map().map_values(|v: String| v@)
}

/// The text of an optional string.
pub open spec fn opt_text(o: Option<String>) -> Option<Seq<char>> {
    match o {
        Some(s) => Some(s@),
        None => None,
    }
}

/// The value paired with the first occurrence of `k` among `keys`.
pub open spec fn lookup_in<V>(keys: Seq<Seq<char>>, vals: Seq<V>, k: Seq<char>) -> Option<V>
    decreases keys.len(),
{
    if keys.len() == 0 || vals.len() == 0 {
        None
    } else if keys[0] == k {
        Some(vals[0])
    } else {
        lookup_in(keys.drop_first(), vals.drop_first(), k)
    }
}

pub proof fn lemma_lookup_first<V>(keys: Seq<Seq<char>>, vals: Seq<V>, k: Seq<char>, idx: int)
    requires
        keys.len() == vals.len(),
        0 <= idx < keys.len(),
        keys[idx] == k,
        forall|j: int| 0 <= j < idx ==> keys[j] != k,
    ensures
        lookup_in(keys, vals, k) == Some(vals[idx]),
    decreases idx,
{
    if idx > 0 {
        assert(keys[0] != k);
        lemma_lookup_first(keys.drop_first(), vals.drop_first(), k, idx - 1);
    }
}

pub proof fn lemma_lookup_absent<V>(keys: Seq<Seq<char>>, vals: Seq<V>, k: Seq<char>)
    requires
        forall|j: int| 0 <= j < keys.len() ==> keys[j] != k,
    ensures
        lookup_in(keys, vals, k) is None,
    decreases keys.len(),
{
    if keys.len() > 0 && vals.len() > 0 {
        assert(keys[0] != k);
        let t = keys.drop_first();
        assert forall|j: int| 0 <= j < t.len() implies t[j] != k by {
            assert(t[j] == keys[j + 1]);
        }
        lemma_lookup_absent(t, vals.drop_first(), k);
    }
}

/// The key texts of a sequence of entries.
pub open spec fn entries_keys<V>(e: Seq<(String, V)>) -> Seq<Seq<char>> {
    e.map_values(|x: (String, V)| x.0@)
}

/// Where `key` belongs among sorted entries: the first index whose key is not
/// below it, and whether that key equals it.
fn insertion_point<V>(entries: &Vec<(String, V)>, kv: &Vec<char>) -> (r: (usize, bool))
    requires
        sorted_keys(entries_keys(entries@)),
    ensures
        r.0 <= entries@.len(),
        forall|j: int| 0 <= j < r.0 ==> seq_lt(#[trigger] entries_keys(entries@)[j], kv@),
        r.1 ==> r.0 < entries@.len() && entries_keys(entries@)[r.0 as int] == kv@,
        !r.1 && r.0 < entries@.len() ==> seq_lt(kv@, entries_keys(entries@)[r.0 as int]),
{
    let n = entries.len();
    let mut i: usize = 0;
    while i < n
        invariant
            n == entries@.len(),
            i <= n,
            forall|j: int| 0 <= j < i ==> seq_lt(#[trigger] entries_keys(entries@)[j], kv@),
        decreases n - i,
    {
        let ev = chars_of(entries[i].0.as_str());
        match key_order(&ev, kv) {
            KeyOrder::Less => {
                i = i + 1;
            },
            KeyOrder::Equal => {
                return (i, true);
            },
            KeyOrder::Greater => {
                return (i, false);
            },
        }
    }
    (n, false)
}

} // verus!
