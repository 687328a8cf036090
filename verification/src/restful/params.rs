use vstd::prelude::*;

use crate::ws::numeric::chars_of;

verus! {

/// The order of `String` keys: lexicographic by characters, a proper
/// prefix coming first.
pub open spec fn key_lt(a: Seq<char>, b: Seq<char>) -> bool
    decreases a.len(),
{
    if a.len() == 0 {
        b.len() > 0
    } else if b.len() == 0 {
        false
    } else if a[0] < b[0] {
        true
    } else if a[0] == b[0] {
        key_lt(a.drop_first(), b.drop_first())
    } else {
        false
    }
}

pub proof fn lemma_key_lt_irreflexive(a: Seq<char>)
    ensures
        !key_lt(a, a),
    decreases a.len(),
{
    if a.len() > 0 {
        lemma_key_lt_irreflexive(a.drop_first());
    }
}

pub proof fn lemma_key_lt_transitive(a: Seq<char>, b: Seq<char>, c: Seq<char>)
    requires
        key_lt(a, b),
        key_lt(b, c),
    ensures
        key_lt(a, c),
    decreases a.len(),
{
    if a.len() > 0 && b.len() > 0 && c.len() > 0 && a[0] == b[0] && b[0] == c[0] {
        lemma_key_lt_transitive(a.drop_first(), b.drop_first(), c.drop_first());
    }
}

pub proof fn lemma_key_lt_total(a: Seq<char>, b: Seq<char>)
    requires
        a != b,
    ensures
        key_lt(a, b) || key_lt(b, a),
    decreases a.len(),
{
    if a.len() > 0 && b.len() > 0 && a[0] == b[0] {
        if a.drop_first() == b.drop_first() {
            assert(a =~= seq![a[0]] + a.drop_first());
            assert(b =~= seq![b[0]] + b.drop_first());
        }
        lemma_key_lt_total(a.drop_first(), b.drop_first());
    } else if a.len() == 0 && b.len() == 0 {
        assert(a =~= b);
    }
}

/// Keys that share their first `i` characters compare as their rests do.
proof fn lemma_key_lt_common_prefix(a: Seq<char>, b: Seq<char>, i: int)
    requires
        0 <= i <= a.len(),
        i <= b.len(),
        forall|j: int| 0 <= j < i ==> a[j] == b[j],
    ensures
        key_lt(a, b) == key_lt(a.subrange(i, a.len() as int), b.subrange(i, b.len() as int)),
        (a == b) == (a.subrange(i, a.len() as int) == b.subrange(i, b.len() as int)),
    decreases i,
{
    if i > 0 {
        let a1 = a.drop_first();
        let b1 = b.drop_first();
        assert forall|j: int| 0 <= j < i - 1 implies a1[j] == b1[j] by {
            assert(a[j + 1] == b[j + 1]);
        }
        lemma_key_lt_common_prefix(a1, b1, i - 1);
        assert(a1.subrange(i - 1, a1.len() as int) =~= a.subrange(i, a.len() as int));
        assert(b1.subrange(i - 1, b1.len() as int) =~= b.subrange(i, b.len() as int));
        if a1 == b1 {
            assert(a =~= seq![a[0]] + a1);
            assert(b =~= seq![b[0]] + b1);
        }
    } else {
        assert(a.subrange(0, a.len() as int) =~= a);
        assert(b.subrange(0, b.len() as int) =~= b);
    }
}

/// How two keys compare.
#[derive(Debug, Clone, Copy, PartialEq, Eq, Structural)]
pub enum KeyOrder {
    Less,
    Equal,
    Greater,
}

pub open spec fn spec_key_order(a: Seq<char>, b: Seq<char>) -> KeyOrder {
    if key_lt(a, b) {
        KeyOrder::Less
    } else if a == b {
        KeyOrder::Equal
    } else {
        KeyOrder::Greater
    }
}

/// Compares two keys in the order of `key_lt`.
pub fn compare_keys(a: &str, b: &str) -> (r: KeyOrder)
    ensures
        r == spec_key_order(a@, b@),
{
    let x = chars_of(a);
    let y = chars_of(b);
    let n = x.len();
    let m = y.len();
    let mut i: usize = 0;
    while i < n && i < m
        invariant
            n == x@.len(),
            m == y@.len(),
            x@ == a@,
            y@ == b@,
            0 <= i <= n,
            i <= m,
            forall|j: int| 0 <= j < i ==> x@[j] == y@[j],
        decreases n - i,
    {
        let cx = x[i];
        let cy = y[i];
        if cx != cy {
            proof {
                lemma_key_lt_common_prefix(x@, y@, i as int);
                let xs = x@.subrange(i as int, n as int);
                let ys = y@.subrange(i as int, m as int);
                assert(xs[0] == x@[i as int]);
                assert(ys[0] == y@[i as int]);
                assert(xs != ys);
                if cy < cx {
                    assert(!key_lt(xs, ys));
                }
            }
            if cx < cy {
                return KeyOrder::Less;
            } else {
                return KeyOrder::Greater;
            }
        }
        assert(x@[i as int] == y@[i as int]);
        i = i + 1;
    }
    proof {
        lemma_key_lt_common_prefix(x@, y@, i as int);
        let xs = x@.subrange(i as int, n as int);
        let ys = y@.subrange(i as int, m as int);
        if xs.len() == 0 && ys.len() == 0 {
            assert(xs =~= ys);
        } else {
            assert(xs.len() != ys.len());
        }
    }
    if n < m {
        KeyOrder::Less
    } else if n == m {
        KeyOrder::Equal
    } else {
        KeyOrder::Greater
    }
}

/// The texts of a sequence of key/value pairs.
pub open spec fn pairs_view(e: Seq<(String, String)>) -> Seq<(Seq<char>, Seq<char>)> {
    e.map_values(|p: (String, String)| (p.0@, p.1@))
}

/// Every key comes before each key after it.
pub open spec fn keys_sorted(s: Seq<(Seq<char>, Seq<char>)>) -> bool {
    forall|i: int, j: int| 0 <= i < j < s.len() ==> key_lt(#[trigger] s[i].0, #[trigger] s[j].0)
}

pub open spec fn has_key(s: Seq<(Seq<char>, Seq<char>)>, k: Seq<char>) -> bool {
    exists|j: int| 0 <= j < s.len() && (#[trigger] s[j]).0 == k
}

pub open spec fn key_index(s: Seq<(Seq<char>, Seq<char>)>, k: Seq<char>) -> int {
    choose|j: int| 0 <= j < s.len() && (#[trigger] s[j]).0 == k
}

/// The map that a sequence of key/value pairs with distinct keys stands for.
pub open spec fn pairs_map(s: Seq<(Seq<char>, Seq<char>)>) -> Map<Seq<char>, Seq<char>> {
    Map::new(|k: Seq<char>| has_key(s, k), |k: Seq<char>| s[key_index(s, k)].1)
}

proof fn lemma_sorted_distinct(s: Seq<(Seq<char>, Seq<char>)>, i: int, j: int)
    requires
        keys_sorted(s),
        0 <= i < s.len(),
        0 <= j < s.len(),
        i != j,
    ensures
        s[i].0 != s[j].0,
{
    if i < j {
        assert(key_lt(s[i].0, s[j].0));
        if s[i].0 == s[j].0 {
            lemma_key_lt_irreflexive(s[i].0);
        }
    } else {
        assert(key_lt(s[j].0, s[i].0));
        if s[i].0 == s[j].0 {
            lemma_key_lt_irreflexive(s[i].0);
        }
    }
}

/// In a sorted sequence the entry at `j` is what the map holds for its key.
proof fn lemma_lookup(s: Seq<(Seq<char>, Seq<char>)>, j: int)
    requires
        keys_sorted(s),
        0 <= j < s.len(),
    ensures
        pairs_map(s).contains_key(s[j].0),
        pairs_map(s)[s[j].0] == s[j].1,
{
    let k = s[j].0;
    assert(has_key(s, k));
    let c = key_index(s, k);
    if c != j {
        lemma_sorted_distinct(s, c, j);
    }
}

/// Request parameters: pairs of key and value, each key at most once, kept
/// in increasing order of keys.
pub struct QueryParams {
    entries: Vec<(String, String)>,
}

impl QueryParams {
    /// The parameters in the order of their keys.
    pub closed spec fn pairs(&self) -> Seq<(Seq<char>, Seq<char>)> {
        pairs_view(self.entries@)
    }

    #[verifier::type_invariant]
    closed spec fn keys_in_order(&self) -> bool {
        keys_sorted(pairs_view(self.entries@))
    }

    /// The keys of the parameters stand in increasing order, so none occurs
    /// twice, and the map is exactly what the pairs hold.
    pub proof fn lemma_pairs(&self)
        requires
            keys_sorted(self.pairs()),
        ensures
            forall|i: int, j: int|
                0 <= i < self.pairs().len() && 0 <= j < self.pairs().len() && i != j
                    ==> #[trigger] self.pairs()[i].0 != #[trigger] self.pairs()[j].0,
            forall|i: int|
                0 <= i < self.pairs().len() ==> self@.contains_key(#[trigger] self.pairs()[i].0)
                    && self@[self.pairs()[i].0] == self.pairs()[i].1,
            forall|k: Seq<char>| #[trigger]
                self@.contains_key(k) ==> exists|i: int|
                    0 <= i < self.pairs().len() && (#[trigger] self.pairs()[i]).0 == k,
    {
        let s = self.pairs();
        assert forall|i: int, j: int|
            0 <= i < s.len() && 0 <= j < s.len() && i != j implies #[trigger] s[i].0
            != #[trigger] s[j].0 by {
            lemma_sorted_distinct(s, i, j);
        }
        assert forall|i: int| 0 <= i < s.len() implies self@.contains_key(#[trigger] s[i].0)
            && self@[s[i].0] == s[i].1 by {
            lemma_lookup(s, i);
        }
    }

    /// No parameters.
    pub fn new() -> (r: QueryParams)
        ensures
            r@ == Map::<Seq<char>, Seq<char>>::empty(),
            r.pairs() == Seq::<(Seq<char>, Seq<char>)>::empty(),
            keys_sorted(r.pairs()),
    {
        let r = QueryParams { entries: Vec::new() };
        assert(pairs_view(r.entries@) =~= Seq::<(Seq<char>, Seq<char>)>::empty());
        assert(r@ =~= Map::<Seq<char>, Seq<char>>::empty());
        r
    }

    /// The number of parameters.
    pub fn len(&self) -> (n: usize)
        ensures
            n == self.pairs().len(),
    {
        self.entries.len()
    }

    /// The pairs in the order of their keys.
    pub fn entries(&self) -> (r: &Vec<(String, String)>)
        ensures
            pairs_view(r@) == self.pairs(),
            keys_sorted(self.pairs()),
    {
        proof {
            use_type_invariant(self);
        }
        &self.entries
    }

    /// The value of `key`, if it is set.
    pub fn get(&self, key: &str) -> (r: Option<&String>)
        ensures
            r is Some <==> self@.contains_key(key@),
            r matches Some(v) ==> self@[key@] == v@,
    {
        proof {
            use_type_invariant(self);
        }
        let n = self.entries.len();
        let mut i: usize = 0;
        while i < n
            invariant
                n == self.entries@.len(),
                0 <= i <= n,
                keys_sorted(pairs_view(self.entries@)),
                forall|j: int| 0 <= j < i ==> (#[trigger] self.entries@[j]).0@ != key@,
            decreases n - i,
        {
            let order = compare_keys(self.entries[i].0.as_str(), key);
            if order == KeyOrder::Equal {
                proof {
                    let s = pairs_view(self.entries@);
                    assert(s[i as int] == (self.entries@[i as int].0@, self.entries@[i as int].1@));
                    lemma_lookup(s, i as int);
                }
                return Some(&self.entries[i].1);
            }
            proof {
                lemma_key_lt_irreflexive(key@);
            }
            i = i + 1;
        }
        proof {
            let s = pairs_view(self.entries@);
            if has_key(s, key@) {
                let j = choose|j: int| 0 <= j < s.len() && (#[trigger] s[j]).0 == key@;
                assert(self.entries@[j].0@ == s[j].0);
            }
        }
        None
    }

    /// Sets `key` to `value`, replacing the value it had.
    pub fn insert(&mut self, key: String, value: String)
        ensures
            final(self)@ == old(self)@.insert(key@, value@),
            keys_sorted(final(self).pairs()),
    {
        proof {
            use_type_invariant(&*self);
        }
        let mut entries: Vec<(String, String)> = Vec::new();
        std::mem::swap(&mut entries, &mut self.entries);
        let ghost s = pairs_view(entries@);
        let ghost old_map = pairs_map(s);
        let n = entries.len();
        let mut i: usize = 0;
        let mut found = false;
        while i < n
            invariant_except_break
                n == entries@.len(),
                s == pairs_view(entries@),
                keys_sorted(s),
                0 <= i <= n,
                forall|j: int| 0 <= j < i ==> key_lt(#[trigger] s[j].0, key@),
                !found,
            ensures
                n == entries@.len(),
                s == pairs_view(entries@),
                keys_sorted(s),
                0 <= i <= n,
                forall|j: int| 0 <= j < i ==> key_lt(#[trigger] s[j].0, key@),
                found ==> i < n && s[i as int].0 == key@,
                !found ==> i == n || key_lt(key@, s[i as int].0),
            decreases n - i,
        {
            assert(s[i as int] == (entries@[i as int].0@, entries@[i as int].1@));
            let order = compare_keys(entries[i].0.as_str(), key.as_str());
            if order == KeyOrder::Equal {
                found = true;
                break;
            }
            if order == KeyOrder::Greater {
                proof {
                    lemma_key_lt_total(s[i as int].0, key@);
                }
                break;
            }
            i = i + 1;
        }
        let ghost kv = (key@, value@);
        if found {
            let ghost old_entries = entries@;
            entries.set(i, (key, value));
            proof {
                let t = pairs_view(entries@);
                assert(t =~= s.update(i as int, kv));
                assert forall|p: int, q: int| 0 <= p < q < t.len() implies key_lt(
                    #[trigger] t[p].0,
                    #[trigger] t[q].0,
                ) by {
                    assert(s[p].0 == t[p].0);
                    assert(s[q].0 == t[q].0);
                }
                lemma_map_after(s, t, i as int, kv, false);
            }
        } else {
            entries.insert(i, (key, value));
            proof {
                let t = pairs_view(entries@);
                assert(t =~= s.insert(i as int, kv));
                assert forall|p: int, q: int| 0 <= p < q < t.len() implies key_lt(
                    #[trigger] t[p].0,
                    #[trigger] t[q].0,
                ) by {
                    if q < i {
                        assert(t[p] == s[p] && t[q] == s[q]);
                    } else if q == i {
                        assert(t[p] == s[p]);
                    } else if p == i {
                        assert(t[q] == s[q - 1]);
                        if q - 1 > i {
                            assert(key_lt(s[i as int].0, s[q - 1].0));
                            lemma_key_lt_transitive(kv.0, s[i as int].0, s[q - 1].0);
                        }
                    } else if p < i {
                        assert(t[p] == s[p] && t[q] == s[q - 1]);
                    } else {
                        assert(t[p] == s[p - 1] && t[q] == s[q - 1]);
                    }
                }
                lemma_map_after(s, t, i as int, kv, true);
            }
        }
        self.entries = entries;
    }
}

/// The map of the pairs after a set (`inserted` false) or an insertion
/// at `i` is the old map with `kv` put in.
proof fn lemma_map_after(
    s: Seq<(Seq<char>, Seq<char>)>,
    t: Seq<(Seq<char>, Seq<char>)>,
    i: int,
    kv: (Seq<char>, Seq<char>),
    inserted: bool,
)
    requires
        keys_sorted(s),
        keys_sorted(t),
        0 <= i <= s.len(),
        inserted ==> t == s.insert(i, kv),
        !inserted ==> i < s.len() && s[i].0 == kv.0 && t == s.update(i, kv),
    ensures
        pairs_map(t) == pairs_map(s).insert(kv.0, kv.1),
{
    let m = pairs_map(s).insert(kv.0, kv.1);
    let mt = pairs_map(t);
    assert(t[i] == kv);
    lemma_lookup(t, i);
    assert forall|k: Seq<char>| #[trigger] mt.contains_key(k) <==> m.contains_key(k) by {
        if mt.contains_key(k) && k != kv.0 {
            let j = key_index(t, k);
            let js = if inserted && j > i {
                j - 1
            } else {
                j
            };
            assert(s[js] == t[j]);
            lemma_lookup(s, js);
        }
        if m.contains_key(k) && k != kv.0 {
            let j = key_index(s, k);
            let jt = if inserted && j >= i {
                j + 1
            } else {
                j
            };
            assert(t[jt] == s[j]);
            lemma_lookup(t, jt);
        }
    }
    assert forall|k: Seq<char>| #[trigger] mt.contains_key(k) implies mt[k] == m[k] by {
        if k != kv.0 {
            let j = key_index(t, k);
            let js = if inserted && j > i {
                j - 1
            } else {
                j
            };
            assert(s[js] == t[j]);
            lemma_lookup(s, js);
            lemma_lookup(t, j);
        }
    }
    assert(mt =~= m);
}

/// After `key` is set to `value`, looking `key` up gives `value`, and every
/// other key has what it had before.
pub proof fn lemma_get_after_insert(
    before: QueryParams,
    after: QueryParams,
    key: Seq<char>,
    value: Seq<char>,
    other: Seq<char>,
)
    requires
        after@ == before@.insert(key, value),
    ensures
        after@.contains_key(key),
        after@[key] == value,
        other != key ==> (after@.contains_key(other) == before@.contains_key(other)),
        other != key && before@.contains_key(other) ==> after@[other] == before@[other],
{
}

impl View for QueryParams {
    type V = Map<Seq<char>, Seq<char>>;

    open spec fn view(&self) -> Map<Seq<char>, Seq<char>> {
        pairs_map(self.pairs())
    }
}

} // verus!
