use crate::bytes::{compare_bytes, lemma_lex_irreflexive, lemma_lex_transitive, lemma_lex_trichotomy, lex_lt, Comparison};
use vstd::prelude::*;
use vstd::utf8::*;

verus! {

broadcast use vstd::utf8::encode_utf8_decode_utf8;

/// The bytes by which keys are ordered: their UTF-8 encoding.
pub open spec fn key_bytes(k: Seq<char>) -> Seq<u8> {
    encode_utf8(k)
}

/// A map from strings to values whose entries are kept in ascending key
/// order, as in a `BTreeMap<String, V>`: two maps with the same contents
/// hold the same entries in the same order.
#[derive(Debug, PartialEq, Eq)]
pub struct StrMap<V> {
    entries: Vec<(String, V)>,
}

impl<V> StrMap<V> {
    /// The keys in the order in which they are held.
    pub closed spec fn keys(&self) -> Seq<Seq<char>> {
        self.entries@.map_values(|e: (String, V)| e.0@)
    }

    /// The values in the order in which they are held.
    pub closed spec fn vals(&self) -> Seq<V> {
        self.entries@.map_values(|e: (String, V)| e.1)
    }

    pub closed spec fn spec_len(&self) -> nat {
        self.entries@.len()
    }

    #[verifier::type_invariant]
    closed spec fn sorted(&self) -> bool {
        forall|i: int, j: int|
            #![trigger self.entries@[i], self.entries@[j]]
            0 <= i < j < self.entries@.len() ==> lex_lt(
                key_bytes(self.entries@[i].0@),
                key_bytes(self.entries@[j].0@),
            )
    }

    /// The keys are held in ascending order of their UTF-8 encodings.
    pub open spec fn keys_ascending(&self) -> bool {
        forall|i: int, j: int|
            0 <= i < j < self.spec_len() ==> lex_lt(
                key_bytes(#[trigger] self.keys()[i]),
                key_bytes(#[trigger] self.keys()[j]),
            )
    }

    /// Whether `k` is one of the keys.
    pub open spec fn has_key(&self, k: Seq<char>) -> bool {
        exists|i: int| 0 <= i < self.spec_len() && self.keys()[i] == k
    }

    /// The value held under `k`, given that `k` is a key.
    pub open spec fn value_of(&self, k: Seq<char>) -> V {
        self.vals()[choose|i: int| 0 <= i < self.spec_len() && self.keys()[i] == k]
    }

    /// The contents as a map from keys to values.
    pub open spec fn contents(&self) -> Map<Seq<char>, V> {
        Map::new(|k: Seq<char>| self.has_key(k), |k: Seq<char>| self.value_of(k))
    }

    /// The sorted order of the keys (the type's invariant) as a fact about `self`.
    proof fn lemma_ascending(&self)
        requires
            self.sorted(),
        ensures
            self.keys_ascending(),
            self.keys().len() == self.spec_len(),
            self.vals().len() == self.spec_len(),
    {
        assert forall|i: int, j: int|
            0 <= i < j < self.spec_len() implies lex_lt(
                key_bytes(#[trigger] self.keys()[i]),
                key_bytes(#[trigger] self.keys()[j]),
            ) by {
            assert(self.keys()[i] == self.entries@[i].0@);
            assert(self.keys()[j] == self.entries@[j].0@);
        }
    }

    /// Keys held in ascending order are the type's invariant.
    proof fn lemma_sorted(&self)
        requires
            self.keys_ascending(),
        ensures
            self.sorted(),
    {
        assert forall|i: int, j: int|
            #![trigger self.entries@[i], self.entries@[j]]
            0 <= i < j < self.entries@.len() implies lex_lt(
                key_bytes(self.entries@[i].0@),
                key_bytes(self.entries@[j].0@),
            ) by {
            assert(self.keys()[i] == self.entries@[i].0@);
            assert(self.keys()[j] == self.entries@[j].0@);
        }
    }

    /// Distinct positions hold distinct keys, so each key's value is the one at its position.
    proof fn lemma_index(&self, i: int)
        requires
            self.sorted(),
            0 <= i < self.spec_len(),
        ensures
            self.has_key(self.keys()[i]),
            self.value_of(self.keys()[i]) == self.vals()[i],
            self.contents().contains_key(self.keys()[i]),
            self.contents()[self.keys()[i]] == self.vals()[i],
            forall|j: int| 0 <= j < self.spec_len() && j != i ==> self.keys()[j] != self.keys()[i],
    {
        self.lemma_ascending();
        assert forall|j: int| 0 <= j < self.spec_len() && j != i implies self.keys()[j] != self.keys()[i] by {
            if j < i {
                lemma_lex_trichotomy(key_bytes(self.keys()[j]), key_bytes(self.keys()[i]));
            } else {
                lemma_lex_trichotomy(key_bytes(self.keys()[i]), key_bytes(self.keys()[j]));
            }
        }
        let k = self.keys()[i];
        assert(self.has_key(k));
        let c = choose|c: int| 0 <= c < self.spec_len() && self.keys()[c] == k;
        assert(c == i);
    }

    /// An empty map.
    pub fn new() -> (r: StrMap<V>)
        ensures
            r.spec_len() == 0,
            r.contents() == Map::<Seq<char>, V>::empty(),
    {
        let r = StrMap { entries: Vec::new() };
        assert(r.contents() =~= Map::<Seq<char>, V>::empty());
        r
    }

    /// The number of entries.
    pub fn len(&self) -> (r: usize)
        ensures
            r == self.spec_len(),
    {
        self.entries.len()
    }

    /// The entries in ascending key order.
    pub fn entries(&self) -> (r: &[(String, V)])
        ensures
            r@.len() == self.spec_len(),
            forall|i: int| 0 <= i < r@.len() ==> (#[trigger] r@[i]).0@ == self.keys()[i] && r@[i].1 == self.vals()[i],
    {
        self.entries.as_slice()
    }

    /// The position of `key`, if it is a key.
    fn find(&self, key: &str) -> (r: Option<usize>)
        ensures
            r is None <==> !self.has_key(key@),
            r matches Some(i) ==> i < self.spec_len() && self.keys()[i as int] == key@,
    {
        proof {
            use_type_invariant(self);
            self.lemma_ascending();
        }
        let kb = key.as_bytes();
        let mut i: usize = 0;
        while i < self.entries.len()
            invariant
                0 <= i <= self.spec_len(),
                self.keys().len() == self.spec_len(),
                kb@ == key_bytes(key@),
                forall|j: int| 0 <= j < i ==> self.keys()[j] != key@,
            decreases self.entries.len() - i,
        {
            let eb = self.entries[i].0.as_str().as_bytes();
            assert(self.keys()[i as int] == self.entries@[i as int].0@);
            if let Comparison::Equal = compare_bytes(eb, kb) {
                assert(decode_utf8(key_bytes(self.keys()[i as int])) == self.keys()[i as int]);
                assert(decode_utf8(key_bytes(key@)) == key@);
                return Some(i);
            }
            i = i + 1;
        }
        None
    }

    /// Whether `key` is a key.
    pub fn contains_key(&self, key: &str) -> (r: bool)
        ensures
            r == self.contents().contains_key(key@),
    {
        self.find(key).is_some()
    }

    /// The value held under `key`.
    pub fn get(&self, key: &str) -> (r: Option<&V>)
        ensures
            r is Some <==> self.contents().contains_key(key@),
            r matches Some(v) ==> *v == self.contents()[key@],
    {
        match self.find(key) {
            Some(i) => {
                proof {
                    use_type_invariant(self);
                    self.lemma_index(i as int);
                }
                Some(&self.entries[i].1)
            }
            None => None,
        }
    }

    /// Puts `entry` at position `i`, given that it belongs there in key order.
    fn insert_at(&mut self, i: usize, entry: (String, V))
        requires
            i <= old(self).spec_len(),
            forall|j: int| 0 <= j < i ==> lex_lt(key_bytes(#[trigger] old(self).keys()[j]), key_bytes(entry.0@)),
            i < old(self).spec_len() ==> lex_lt(key_bytes(entry.0@), key_bytes(old(self).keys()[i as int])),
        ensures
            final(self).contents() == old(self).contents().insert(entry.0@, entry.1),
            !old(self).has_key(entry.0@),
            final(self).spec_len() == old(self).spec_len() + 1,
    {
        proof {
            use_type_invariant(&*self);
            self.lemma_ascending();
        }
        let ghost old_self = *self;
        let ghost k = entry.0@;
        proof {
            assert forall|j: int| 0 <= j < old_self.spec_len() implies old_self.keys()[j] != k by {
                if j < i {
                    lemma_lex_trichotomy(key_bytes(old_self.keys()[j]), key_bytes(k));
                } else {
                    if j > i {
                        lemma_lex_transitive(key_bytes(k), key_bytes(old_self.keys()[i as int]), key_bytes(old_self.keys()[j]));
                    }
                    lemma_lex_trichotomy(key_bytes(k), key_bytes(old_self.keys()[j]));
                }
            }
        }
        let mut entries = Vec::new();
        std::mem::swap(&mut entries, &mut self.entries);
        entries.insert(i, entry);
        let ghost ne = entries@;
        assert forall|a: int, b: int|
            #![trigger ne[a], ne[b]]
            0 <= a < b < ne.len() implies lex_lt(key_bytes(ne[a].0@), key_bytes(ne[b].0@)) by {
            if a < i {
                assert(ne[a] == old_self.entries@[a]);
                assert(old_self.keys()[a] == old_self.entries@[a].0@);
                if b == i {
                } else if b < i {
                    assert(ne[b] == old_self.entries@[b]);
                    assert(old_self.keys()[b] == old_self.entries@[b].0@);
                } else {
                    assert(ne[b] == old_self.entries@[b - 1]);
                    assert(old_self.keys()[b - 1] == old_self.entries@[b - 1].0@);
                    if b - 1 > a {
                    }
                }
            } else if a == i {
                assert(ne[b] == old_self.entries@[b - 1]);
                assert(old_self.keys()[b - 1] == old_self.entries@[b - 1].0@);
                if b - 1 > i {
                    lemma_lex_transitive(key_bytes(k), key_bytes(old_self.keys()[i as int]), key_bytes(old_self.keys()[b - 1]));
                }
            } else {
                assert(ne[a] == old_self.entries@[a - 1]);
                assert(ne[b] == old_self.entries@[b - 1]);
                assert(old_self.keys()[a - 1] == old_self.entries@[a - 1].0@);
                assert(old_self.keys()[b - 1] == old_self.entries@[b - 1].0@);
            }
        }
        self.entries = entries;
        proof {
            use_type_invariant(&*self);
            let goal = old_self.contents().insert(k, entry.1);
            assert forall|q: Seq<char>| #![trigger self.contents().contains_key(q)]
                self.contents().contains_key(q) == goal.contains_key(q) by {
                if self.has_key(q) {
                    let c = choose|c: int| 0 <= c < self.spec_len() && self.keys()[c] == q;
                    if c < i {
                        assert(self.keys()[c] == old_self.keys()[c]);
                    } else if c > i {
                        assert(self.keys()[c] == old_self.keys()[c - 1]);
                    }
                }
                if old_self.has_key(q) {
                    let c = choose|c: int| 0 <= c < old_self.spec_len() && old_self.keys()[c] == q;
                    let nc = if c < i { c } else { c + 1 };
                    assert(self.keys()[nc] == q);
                }
                if q == k {
                    assert(self.keys()[i as int] == k);
                }
            }
            assert forall|q: Seq<char>| #[trigger] self.contents().contains_key(q) implies
                self.contents()[q] == goal[q] by {
                let c = choose|c: int| 0 <= c < self.spec_len() && self.keys()[c] == q;
                self.lemma_index(c);
                if c < i {
                    old_self.lemma_index(c);
                    assert(self.keys()[c] == old_self.keys()[c]);
                    assert(self.vals()[c] == old_self.vals()[c]);
                } else if c > i {
                    old_self.lemma_index(c - 1);
                    assert(self.keys()[c] == old_self.keys()[c - 1]);
                    assert(self.vals()[c] == old_self.vals()[c - 1]);
                } else {
                    assert(self.vals()[c] == entry.1);
                }
            }
            assert(self.contents() =~= goal);
        }
    }

    /// Sets the value of `key`, returning the value it replaced.
    pub fn insert(&mut self, key: String, value: V) -> (r: Option<V>)
        ensures
            final(self).contents() == old(self).contents().insert(key@, value),
            r is Some <==> old(self).contents().contains_key(key@),
            r matches Some(v) ==> v == old(self).contents()[key@],
    {
        let old_value = self.remove(key.as_str());
        proof {
            use_type_invariant(&*self);
            self.lemma_ascending();
        }
        let ghost mid = *self;
        assert(!self.contents().contains_key(key@));
        assert(!self.has_key(key@));
        let kb = key.as_str().as_bytes();
        let mut i: usize = 0;
        while i < self.entries.len()
            invariant_except_break
                0 <= i <= self.spec_len(),
                self.keys().len() == self.spec_len(),
                *self == mid,
                !self.has_key(key@),
                kb@ == key_bytes(key@),
                forall|j: int| 0 <= j < i ==> lex_lt(key_bytes(#[trigger] self.keys()[j]), key_bytes(key@)),
            ensures
                0 <= i <= self.spec_len(),
                *self == mid,
                forall|j: int| 0 <= j < i ==> lex_lt(key_bytes(#[trigger] self.keys()[j]), key_bytes(key@)),
                i < self.spec_len() ==> lex_lt(key_bytes(key@), key_bytes(self.keys()[i as int])),
            decreases self.entries.len() - i,
        {
            let eb = self.entries[i].0.as_str().as_bytes();
            assert(self.keys()[i as int] == self.entries@[i as int].0@);
            match compare_bytes(eb, kb) {
                Comparison::Less => {}
                Comparison::Equal => {
                    proof {
                        assert(decode_utf8(key_bytes(self.keys()[i as int])) == self.keys()[i as int]);
                        assert(decode_utf8(key_bytes(key@)) == key@);
                        assert(self.has_key(key@));
                    }
                    break;
                }
                Comparison::Greater => {
                    break;
                }
            }
            i = i + 1;
        }
        let ghost kv = key@;
        self.insert_at(i, (key, value));
        assert(self.contents() =~= old(self).contents().insert(kv, value));
        old_value
    }

    /// Removes `key` and returns the value it held.
    pub fn remove(&mut self, key: &str) -> (r: Option<V>)
        ensures
            final(self).contents() == old(self).contents().remove(key@),
            r is Some <==> old(self).contents().contains_key(key@),
            r matches Some(v) ==> v == old(self).contents()[key@],
            final(self).spec_len() == old(self).spec_len() - (if r is Some { 1int } else { 0int }),
    {
        match self.find(key) {
            Some(i) => {
                proof {
                    use_type_invariant(&*self);
                    self.lemma_index(i as int);
                    self.lemma_ascending();
                }
                let ghost old_self = *self;
                let mut entries = Vec::new();
                std::mem::swap(&mut entries, &mut self.entries);
                let (_, v) = entries.remove(i);
                let ghost rest = entries@;
                assert forall|a: int, b: int|
                    #![trigger rest[a], rest[b]]
                    0 <= a < b < rest.len() implies lex_lt(key_bytes(rest[a].0@), key_bytes(rest[b].0@)) by {
                    let oa = if a < i { a } else { a + 1 };
                    let ob = if b < i { b } else { b + 1 };
                    assert(rest[a] == old_self.entries@[oa]);
                    assert(rest[b] == old_self.entries@[ob]);
                    assert(old_self.keys()[oa] == old_self.entries@[oa].0@);
                    assert(old_self.keys()[ob] == old_self.entries@[ob].0@);
                }
                self.entries = entries;
                proof {
                    assert forall|k: Seq<char>| #![trigger self.contents().contains_key(k)]
                        self.contents().contains_key(k) == old_self.contents().remove(key@).contains_key(k) by {
                        if self.has_key(k) {
                            let c = choose|c: int| 0 <= c < self.spec_len() && self.keys()[c] == k;
                            let oc = if c < i { c } else { c + 1 };
                            assert(self.keys()[c] == old_self.keys()[oc]);
                            assert(old_self.has_key(k));
                        }
                        if old_self.has_key(k) && k != key@ {
                            let c = choose|c: int| 0 <= c < old_self.spec_len() && old_self.keys()[c] == k;
                            assert(c != i);
                            let nc = if c < i { c } else { c - 1 };
                            assert(self.keys()[nc] == k);
                        }
                    }
                    assert forall|k: Seq<char>| #[trigger] self.contents().contains_key(k) implies
                        self.contents()[k] == old_self.contents()[k] by {
                        let c = choose|c: int| 0 <= c < self.spec_len() && self.keys()[c] == k;
                        let oc = if c < i { c } else { c + 1 };
                        self.lemma_index(c);
                        old_self.lemma_index(oc);
                        assert(self.keys()[c] == old_self.keys()[oc]);
                        assert(self.vals()[c] == old_self.vals()[oc]);
                    }
                    assert(self.contents() =~= old_self.contents().remove(key@));
                }
                Some(v)
            }
            None => {
                assert(self.contents() =~= self.contents().remove(key@));
                None
            }
        }
    }
}

impl<V: View> View for StrMap<V> {
    type V = Map<Seq<char>, V::V>;

    /// The contents, each value taken by its view.
    open spec fn view(&self) -> Map<Seq<char>, V::V> {
        self.contents().map_values(|v: V| v@)
    }
}

/// A JSON-like value as it appears among a server's rules.
#[derive(Clone, Debug, PartialEq, Eq)]
pub enum Value {
    Bool(bool),
    Int(i64),
    Str(String),
    Object(StrMap<String>),
}

/// The mathematical value of a [`Value`].
pub enum ValueView {
    Bool(bool),
    Int(int),
    Str(Seq<char>),
    Object(Map<Seq<char>, Seq<char>>),
}

impl View for Value {
    type V = ValueView;

    open spec fn view(&self) -> ValueView {
        match self {
            Value::Bool(b) => ValueView::Bool(*b),
            Value::Int(i) => ValueView::Int(*i as int),
            Value::Str(s) => ValueView::Str(s@),
            Value::Object(m) => ValueView::Object(m@),
        }
    }
}

impl<V: Clone> Clone for StrMap<V> {
    /// A copy holding the same keys in the same order, each value cloned.
    fn clone(&self) -> (r: Self)
        ensures
            r.keys() == self.keys(),
            forall|i: int| 0 <= i < self.spec_len() ==> cloned(self.vals()[i], #[trigger] r.vals()[i]),
    {
        proof { use_type_invariant(self); }
        let mut entries: Vec<(String, V)> = Vec::new();
        let mut i: usize = 0;
        while i < self.entries.len()
            invariant
                0 <= i <= self.entries@.len(),
                entries@.len() == i,
                forall|j: int| 0 <= j < i ==> (#[trigger] entries@[j]).0@ == self.entries@[j].0@
                    && cloned(self.entries@[j].1, entries@[j].1),
            decreases self.entries.len() - i,
        {
            let k = self.entries[i].0.clone();
            let v = self.entries[i].1.clone();
            entries.push((k, v));
            i = i + 1;
        }
        let r = StrMap { entries };
        assert forall|a: int, b: int|
            #![trigger r.entries@[a], r.entries@[b]]
            0 <= a < b < r.entries@.len() implies lex_lt(key_bytes(r.entries@[a].0@), key_bytes(r.entries@[b].0@)) by {
            assert(r.entries@[a].0@ == self.entries@[a].0@);
            assert(r.entries@[b].0@ == self.entries@[b].0@);
        }
        assert(r.keys() =~= self.keys());
        r
    }
}

/// Whether `s` is strictly ascending in the order of the keys' UTF-8 encodings.
pub open spec fn strictly_ascending(s: Seq<Seq<char>>) -> bool {
    forall|i: int, j: int| 0 <= i < j < s.len() ==> lex_lt(key_bytes(#[trigger] s[i]), key_bytes(#[trigger] s[j]))
}

/// Two strictly ascending sequences of keys that hold the same keys are the
/// same sequence.
proof fn lemma_ascending_unique(s: Seq<Seq<char>>, t: Seq<Seq<char>>)
    requires
        strictly_ascending(s),
        strictly_ascending(t),
        forall|k: Seq<char>| s.contains(k) <==> t.contains(k),
    ensures
        s == t,
    decreases s.len(),
{
    if s.len() == 0 {
        if t.len() > 0 {
            assert(t.contains(t[0]));
        }
        assert(s =~= t);
    } else {
        assert(s.contains(s[0]));
        assert(t.contains(s[0]));
        assert(t.len() > 0);
        assert(t.contains(t[0]));
        assert(s.contains(t[0]));
        if s[0] != t[0] {
            let i = choose|i: int| 0 <= i < s.len() && s[i] == t[0];
            let j = choose|j: int| 0 <= j < t.len() && t[j] == s[0];
            assert(lex_lt(key_bytes(s[0]), key_bytes(s[i])));
            assert(lex_lt(key_bytes(t[0]), key_bytes(t[j])));
            lemma_lex_transitive(key_bytes(s[0]), key_bytes(t[0]), key_bytes(s[0]));
            lemma_lex_irreflexive(key_bytes(s[0]));
        }
        let s1 = s.drop_first();
        let t1 = t.drop_first();
        assert forall|i: int, j: int| 0 <= i < j < s1.len() implies lex_lt(key_bytes(#[trigger] s1[i]), key_bytes(#[trigger] s1[j])) by {
            assert(s1[i] == s[i + 1] && s1[j] == s[j + 1]);
        }
        assert forall|i: int, j: int| 0 <= i < j < t1.len() implies lex_lt(key_bytes(#[trigger] t1[i]), key_bytes(#[trigger] t1[j])) by {
            assert(t1[i] == t[i + 1] && t1[j] == t[j + 1]);
        }
        assert forall|k: Seq<char>| s1.contains(k) <==> t1.contains(k) by {
            if s1.contains(k) {
                let a = choose|a: int| 0 <= a < s1.len() && s1[a] == k;
                assert(s[a + 1] == k);
                assert(lex_lt(key_bytes(s[0]), key_bytes(s[a + 1])));
                lemma_lex_irreflexive(key_bytes(k));
                assert(s.contains(k));
                let b = choose|b: int| 0 <= b < t.len() && t[b] == k;
                assert(b != 0);
                assert(t1[b - 1] == k);
            }
            if t1.contains(k) {
                let a = choose|a: int| 0 <= a < t1.len() && t1[a] == k;
                assert(t[a + 1] == k);
                assert(lex_lt(key_bytes(t[0]), key_bytes(t[a + 1])));
                lemma_lex_irreflexive(key_bytes(k));
                assert(t.contains(k));
                let b = choose|b: int| 0 <= b < s.len() && s[b] == k;
                assert(b != 0);
                assert(s1[b - 1] == k);
            }
        }
        lemma_ascending_unique(s1, t1);
        assert(s =~= seq![s[0]] + s1);
        assert(t =~= seq![t[0]] + t1);
    }
}

/// Two maps with the same contents hold the same keys in the same order,
/// each with the same value: a map's entries are determined by its contents.
pub proof fn lemma_same_contents_same_entries<V>(a: StrMap<V>, b: StrMap<V>)
    requires
        a.keys_ascending(),
        b.keys_ascending(),
        a.contents() == b.contents(),
    ensures
        a.keys() == b.keys(),
        a.vals() == b.vals(),
{
    a.lemma_sorted();
    b.lemma_sorted();
    a.lemma_ascending();
    b.lemma_ascending();
    assert forall|k: Seq<char>| a.keys().contains(k) <==> b.keys().contains(k) by {
        assert(a.contents().contains_key(k) == a.has_key(k));
        assert(b.contents().contains_key(k) == b.has_key(k));
    }
    lemma_ascending_unique(a.keys(), b.keys());
    assert forall|i: int| 0 <= i < a.vals().len() implies a.vals()[i] == b.vals()[i] by {
        a.lemma_index(i);
        b.lemma_index(i);
    }
    assert(a.vals() =~= b.vals());
}

/// Two maps that hold the same keys in the same order agree on which keys
/// they have and pair each key with the value at the same position.
proof fn lemma_same_keys<V, W>(a: StrMap<V>, b: StrMap<W>, k: Seq<char>)
    requires
        a.keys() == b.keys(),
        a.spec_len() == b.spec_len(),
    ensures
        a.has_key(k) == b.has_key(k),
        a.has_key(k) ==> exists|i: int| 0 <= i < a.spec_len() && a.keys()[i] == k
            && a.value_of(k) == a.vals()[i] && b.value_of(k) == b.vals()[i],
{
    if a.has_key(k) {
        let i = choose|i: int| 0 <= i < a.spec_len() && a.keys()[i] == k;
        assert(b.keys()[i] == k);
    }
    if b.has_key(k) {
        let i = choose|i: int| 0 <= i < b.spec_len() && b.keys()[i] == k;
        assert(a.keys()[i] == k);
    }
}

/// The rules a map of text values stands for: each value as a string value.
pub fn string_rules(m: &StrMap<String>) -> (r: StrMap<Value>)
    ensures
        r@ == m@.map_values(|v: Seq<char>| ValueView::Str(v)),
{
    proof { use_type_invariant(m); }
    let mut entries: Vec<(String, Value)> = Vec::new();
    let mut i: usize = 0;
    while i < m.entries.len()
        invariant
            0 <= i <= m.entries@.len(),
            entries@.len() == i,
            forall|j: int| 0 <= j < i ==> (#[trigger] entries@[j]).0 == m.entries@[j].0
                && entries@[j].1 == Value::Str(m.entries@[j].1),
        decreases m.entries.len() - i,
    {
        let k = m.entries[i].0.clone();
        let v = m.entries[i].1.clone();
        entries.push((k, Value::Str(v)));
        i = i + 1;
    }
    let r = StrMap { entries };
    assert forall|a: int, b: int|
        #![trigger r.entries@[a], r.entries@[b]]
        0 <= a < b < r.entries@.len() implies lex_lt(key_bytes(r.entries@[a].0@), key_bytes(r.entries@[b].0@)) by {
        assert(r.entries@[a].0 == m.entries@[a].0);
        assert(r.entries@[b].0 == m.entries@[b].0);
    }
    assert(r.keys() =~= m.keys());
    assert forall|k: Seq<char>| #![trigger r@.contains_key(k)]
        r@.contains_key(k) == m@.map_values(|v: Seq<char>| ValueView::Str(v)).contains_key(k)
        && (r@.contains_key(k) ==> r@[k] == m@.map_values(|v: Seq<char>| ValueView::Str(v))[k]) by {
        lemma_same_keys(r, *m, k);
        if r.has_key(k) {
            let i = choose|i: int| 0 <= i < r.spec_len() && r.keys()[i] == k
                && r.value_of(k) == r.vals()[i] && m.value_of(k) == m.vals()[i];
            assert(r.vals()[i] == r.entries@[i].1);
            assert(m.vals()[i] == m.entries@[i].1);
        }
    }
    assert(r@ =~= m@.map_values(|v: Seq<char>| ValueView::Str(v)));
    r
}

} // verus!
