//! A map kept as a list of entries in strictly increasing key order.
use vstd::prelude::*;

verus! {

/// A key with a strict total order.
pub trait SortKey: Sized {
    /// Whether `self` comes strictly before `other`.
    spec fn before(self, other: Self) -> bool;

    /// `before` is a strict total order.
    proof fn lemma_order(a: Self, b: Self, c: Self)
        ensures
            !a.before(a),
            a.before(b) && b.before(c) ==> a.before(c),
            a.before(b) || b.before(a) || a == b,
    ;

    fn precedes(&self, other: &Self) -> (r: bool)
        ensures
            r == self.before(*other),
    ;
}

impl SortKey for u64 {
    open spec fn before(self, other: u64) -> bool {
        self < other
    }

    proof fn lemma_order(a: u64, b: u64, c: u64) {
    }

    fn precedes(&self, other: &u64) -> (r: bool) {
        *self < *other
    }
}

/// Whether the keys of `s` strictly increase.
pub open spec fn sorted<K: SortKey, V>(s: Seq<(K, V)>) -> bool {
    forall|i: int, j: int| 0 <= i < j < s.len() ==> (#[trigger] s[i]).0.before((#[trigger] s[j]).0)
}

/// The number of leading entries of `s` whose key comes before `k`.
pub open spec fn lower_bound<K: SortKey, V>(s: Seq<(K, V)>, k: K) -> int
    decreases s.len(),
{
    if s.len() == 0 || !s[0].0.before(k) {
        0
    } else {
        1 + lower_bound(s.drop_first(), k)
    }
}

/// The entries of `s` after `k` was bound to `v`: the entry of `k` replaced
/// where there is one, else a new entry at the place that keeps the order.
pub open spec fn put_entry<K: SortKey, V>(s: Seq<(K, V)>, k: K, v: V) -> Seq<(K, V)> {
    let p = lower_bound(s, k);
    if p < s.len() && s[p].0 == k {
        s.update(p, (k, v))
    } else {
        s.insert(p, (k, v))
    }
}

/// The index of the entry of `k` in `s`, if there is one.
pub open spec fn find_key<K: SortKey, V>(s: Seq<(K, V)>, k: K) -> Option<int> {
    let p = lower_bound(s, k);
    if p < s.len() && s[p].0 == k {
        Some(p)
    } else {
        None
    }
}

/// The lower bound of `k` is the place before which all keys come before
/// `k`, and at which the key does not.
pub proof fn lemma_lower_bound<K: SortKey, V>(s: Seq<(K, V)>, k: K, p: int)
    requires
        0 <= p <= s.len(),
        forall|i: int| 0 <= i < p ==> (#[trigger] s[i]).0.before(k),
        p < s.len() ==> !s[p].0.before(k),
    ensures
        lower_bound(s, k) == p,
    decreases p,
{
    if p > 0 {
        let t = s.drop_first();
        lemma_lower_bound(t, k, p - 1);
    }
}

/// All keys before the lower bound of `k` come before `k`, and the key at
/// it does not.
pub proof fn lemma_lower_bound_range<K: SortKey, V>(s: Seq<(K, V)>, k: K)
    ensures
        0 <= lower_bound(s, k) <= s.len(),
        forall|i: int| 0 <= i < lower_bound(s, k) ==> (#[trigger] s[i]).0.before(k),
        lower_bound(s, k) < s.len() ==> !s[lower_bound(s, k)].0.before(k),
    decreases s.len(),
{
    if s.len() > 0 && s[0].0.before(k) {
        let t = s.drop_first();
        lemma_lower_bound_range(t, k);
        assert forall|i: int| 0 <= i < lower_bound(s, k) implies (#[trigger] s[i]).0.before(k) by {
            if i > 0 {
                assert(s[i] == t[i - 1]);
            }
        }
    }
}

/// In a list in key order, a key has an entry exactly where `find_key` finds
/// one.
pub proof fn lemma_find_key<K: SortKey, V>(s: Seq<(K, V)>, k: K)
    requires
        sorted(s),
    ensures
        find_key(s, k) is Some <==> exists|i: int| 0 <= i < s.len() && (#[trigger] s[i]).0 == k,
        forall|i: int| 0 <= i < s.len() && (#[trigger] s[i]).0 == k ==> find_key(s, k) == Some(i),
{
    lemma_lower_bound_range(s, k);
    assert forall|i: int| 0 <= i < s.len() && (#[trigger] s[i]).0 == k implies find_key(s, k)
        == Some(i) by {
        K::lemma_order(k, k, k);
    }
}

/// Binding a key keeps the order.
pub proof fn lemma_put_sorted<K: SortKey, V>(s: Seq<(K, V)>, k: K, v: V)
    requires
        sorted(s),
    ensures
        sorted(put_entry(s, k, v)),
{
    lemma_lower_bound_range(s, k);
    let p = lower_bound(s, k);
    let t = put_entry(s, k, v);
    if !(p < s.len() && s[p].0 == k) {
        // The new entry stands at `p`, after the keys that come before `k`
        // and before those that do not.
        assert forall|i: int, j: int| 0 <= i < j < t.len() implies (#[trigger] t[i]).0.before(
            (#[trigger] t[j]).0,
        ) by {
            if i == p {
                K::lemma_order(k, s[p].0, s[j - 1].0);
            }
        }
    }
}

/// The entries of `s` with each value replaced by what `f` makes of it.
pub open spec fn map_entries<K, V, W>(s: Seq<(K, V)>, f: spec_fn(V) -> W) -> Seq<(K, W)> {
    s.map_values(|e: (K, V)| (e.0, f(e.1)))
}

/// Replacing the values of a list does not move its keys.
pub proof fn lemma_map_lower_bound<K: SortKey, V, W>(s: Seq<(K, V)>, k: K, f: spec_fn(V) -> W)
    ensures
        lower_bound(map_entries(s, f), k) == lower_bound(s, k),
        find_key(map_entries(s, f), k) == find_key(s, k),
    decreases s.len(),
{
    let t = map_entries(s, f);
    if s.len() > 0 {
        assert(t.drop_first() =~= map_entries(s.drop_first(), f));
        lemma_map_lower_bound(s.drop_first(), k, f);
    }
    lemma_lower_bound_range(s, k);
}

/// Binding a key and then replacing the values is replacing the values and
/// then binding the key to the replaced value.
pub proof fn lemma_map_put<K: SortKey, V, W>(s: Seq<(K, V)>, k: K, v: V, f: spec_fn(V) -> W)
    ensures
        map_entries(put_entry(s, k, v), f) == put_entry(map_entries(s, f), k, f(v)),
{
    lemma_map_lower_bound(s, k, f);
    lemma_lower_bound_range(s, k);
}

/// The entries of `s` after every entry of `other` was bound, in order.
pub open spec fn put_all<K: SortKey, V>(s: Seq<(K, V)>, other: Seq<(K, V)>) -> Seq<(K, V)>
    decreases other.len(),
{
    if other.len() == 0 {
        s
    } else {
        put_entry(put_all(s, other.drop_last()), other.last().0, other.last().1)
    }
}

proof fn lemma_put_prefix<K: SortKey, V>(s: Seq<(K, V)>, i: int)
    requires
        sorted(s),
        0 <= i <= s.len(),
    ensures
        put_all(s, s.subrange(0, i)) == s,
    decreases i,
{
    if i > 0 {
        lemma_put_prefix(s, i - 1);
        assert(s.subrange(0, i).drop_last() =~= s.subrange(0, i - 1));
        lemma_find_key(s, s[i - 1].0);
        assert(put_entry(s, s[i - 1].0, s[i - 1].1) =~= s);
    }
}

/// Binding the entries of a list in key order to the list itself leaves it
/// as it is.
pub proof fn lemma_put_all_same<K: SortKey, V>(s: Seq<(K, V)>)
    requires
        sorted(s),
    ensures
        put_all(s, s) == s,
{
    lemma_put_prefix(s, s.len() as int);
    assert(s.subrange(0, s.len() as int) =~= s);
}

/// A map from keys to values, held as its entries in key order.
#[derive(Debug, PartialEq, Eq)]
pub struct SortedMap<K: SortKey, V> {
    items: Vec<(K, V)>,
}

impl<K: SortKey, V> View for SortedMap<K, V> {
    type V = Seq<(K, V)>;

    closed spec fn view(&self) -> Seq<(K, V)> {
        self.items@
    }
}

impl<K: SortKey, V> SortedMap<K, V> {
    #[verifier::type_invariant]
    spec fn inv(self) -> bool {
        sorted(self.items@)
    }

    /// The empty map.
    pub fn new() -> (r: Self)
        ensures
            r@ == Seq::<(K, V)>::empty(),
    {
        SortedMap { items: Vec::new() }
    }

    /// The map whose entries are `items`, which are in key order.
    pub(crate) fn from_sorted_vec(items: Vec<(K, V)>) -> (r: Self)
        requires
            sorted(items@),
        ensures
            r@ == items@,
    {
        SortedMap { items }
    }

    /// The entries, in strictly increasing key order.
    pub fn items(&self) -> (r: &Vec<(K, V)>)
        ensures
            r@ == self@,
            sorted(r@),
    {
        proof {
            use_type_invariant(self);
        }
        &self.items
    }

    /// The number of entries.
    pub fn len(&self) -> (r: usize)
        ensures
            r == self@.len(),
    {
        self.items.len()
    }

    /// Whether the map has no entry.
    pub fn is_empty(&self) -> (r: bool)
        ensures
            r == (self@.len() == 0),
    {
        self.items.len() == 0
    }

    /// The index of the first entry whose key does not come before `k`.
    fn position(&self, k: &K) -> (p: usize)
        ensures
            p == lower_bound(self@, *k),
            p <= self@.len(),
            p < self@.len() ==> !self@[p as int].0.before(*k),
    {
        let n = self.items.len();
        let mut p: usize = 0;
        while p < n && self.items[p].0.precedes(k)
            invariant
                p <= n,
                n == self.items@.len(),
                forall|i: int| 0 <= i < p ==> (#[trigger] self.items@[i]).0.before(*k),
            decreases n - p,
        {
            p = p + 1;
        }
        proof {
            lemma_lower_bound(self.items@, *k, p as int);
        }
        p
    }

    /// The value bound to `k`, if there is one.
    pub fn get(&self, k: &K) -> (r: Option<&V>)
        ensures
            match r {
                Some(v) => find_key(self@, *k) matches Some(i) && *v == self@[i].1,
                None => find_key(self@, *k) is None,
            },
    {
        let p = self.position(k);
        if p < self.items.len() && !k.precedes(&self.items[p].0) {
            proof {
                K::lemma_order(*k, self.items@[p as int].0, *k);
            }
            Some(&self.items[p].1)
        } else {
            None
        }
    }

    /// Binds `k` to `v`, in place of what `k` was bound to.
    pub fn put(&mut self, k: K, v: V)
        ensures
            final(self)@ == put_entry(old(self)@, k, v),
    {
        proof {
            use_type_invariant(&*self);
            lemma_put_sorted(self.items@, k, v);
        }
        let p = self.position(&k);
        let replace = p < self.items.len() && !k.precedes(&self.items[p].0);
        proof {
            if p < self.items@.len() {
                K::lemma_order(k, self.items@[p as int].0, k);
            }
        }
        let mut items: Vec<(K, V)> = Vec::new();
        core::mem::swap(&mut self.items, &mut items);
        if replace {
            items.set(p, (k, v));
        } else {
            items.insert(p, (k, v));
        }
        core::mem::swap(&mut self.items, &mut items);
    }
}

} // verus!
