//! Storage snapshots, kept sorted by key, and the diff between two of them.

use crate::keys::{
    compare_keys, key_lt, lemma_key_lt_asymmetric, lemma_key_lt_irreflexive,
    lemma_key_lt_transitive,
};
use std::cmp::Ordering;
use vstd::prelude::*;

verus! {

/// Every key sorts strictly before every later key: the keys are unique.
pub open spec fn keys_sorted(s: Seq<(String, String)>) -> bool {
    forall|i: int, j: int| 0 <= i < j < s.len() ==> key_lt(#[trigger] s[i].0@, #[trigger] s[j].0@)
}

/// The mapping from key to value that a sequence of entries holds.
pub open spec fn entries_map(s: Seq<(String, String)>) -> Map<Seq<char>, Seq<char>> {
    Map::new(
        |k: Seq<char>| exists|i: int| 0 <= i < s.len() && s[i].0@ == k,
        |k: Seq<char>| s[key_position(s, k)].1@,
    )
}

/// A position of `k` among the keys of `s`, where there is one.
pub open spec fn key_position(s: Seq<(String, String)>, k: Seq<char>) -> int {
    choose|i: int| 0 <= i < s.len() && s[i].0@ == k
}

pub proof fn lemma_entries_map_at(s: Seq<(String, String)>, x: int)
    requires
        keys_sorted(s),
        0 <= x < s.len(),
    ensures
        entries_map(s).contains_key(s[x].0@),
        entries_map(s)[s[x].0@] == s[x].1@,
{
    let k = s[x].0@;
    assert(0 <= x < s.len() && s[x].0@ == k);
    let c = key_position(s, k);
    if c < x {
        assert(key_lt(s[c].0@, s[x].0@));
        lemma_key_lt_irreflexive(k);
    } else if c > x {
        assert(key_lt(s[x].0@, s[c].0@));
        lemma_key_lt_irreflexive(k);
    }
    assert(entries_map(s).contains_key(k));
}

/// A point-in-time copy of contract storage: key to value, in key order.
pub struct StorageSnapshot {
    entries: Vec<(String, String)>,
}

impl View for StorageSnapshot {
    type V = Map<Seq<char>, Seq<char>>;

    closed spec fn view(&self) -> Map<Seq<char>, Seq<char>> {
        entries_map(self.entries@)
    }
}

impl StorageSnapshot {
    #[verifier::type_invariant]
    spec fn wf(&self) -> bool {
        keys_sorted(self.entries@)
    }

    /// An empty snapshot.
    pub fn new() -> (r: StorageSnapshot)
        ensures
            r@ == Map::<Seq<char>, Seq<char>>::empty(),
    {
        let r = StorageSnapshot { entries: Vec::new() };
        assert(r@ =~= Map::<Seq<char>, Seq<char>>::empty());
        r
    }

    /// Sets `key` to `value`, replacing any earlier value of that key.
    pub fn insert(&mut self, key: String, value: String)
        ensures
            final(self)@ == old(self)@.insert(key@, value@),
    {
        proof {
            use_type_invariant(&*self);
        }
        let mut entries: Vec<(String, String)> = Vec::new();
        std::mem::swap(&mut entries, &mut self.entries);
        let ghost o = entries@;
        let len = entries.len();
        let mut p: usize = 0;
        while p < len && matches!(compare_keys(&entries[p].0, &key), Ordering::Less)
            invariant
                entries@ == o,
                len == o.len(),
                p <= len,
                forall|x: int| 0 <= x < p ==> key_lt(#[trigger] o[x].0@, key@),
            decreases len - p,
        {
            p = p + 1;
        }
        if p < len && matches!(compare_keys(&entries[p].0, &key), Ordering::Equal) {
            entries.set(p, (key, value));
            proof {
                let n = entries@;
                assert(n == o.update(p as int, n[p as int]));
                assert(keys_sorted(n)) by {
                    assert forall|i: int, j: int| 0 <= i < j < n.len() implies key_lt(
                        #[trigger] n[i].0@,
                        #[trigger] n[j].0@,
                    ) by {
                        assert(key_lt(o[i].0@, o[j].0@));
                    }
                }
                Self::lemma_after_update(o, n, p as int, key@, value@);
            }
        } else {
            proof {
                if p < len {
                    lemma_key_lt_asymmetric(o[p as int].0@, key@);
                }
            }
            entries.insert(p, (key, value));
            proof {
                let n = entries@;
                assert(keys_sorted(n)) by {
                    assert forall|i: int, j: int| 0 <= i < j < n.len() implies key_lt(
                        #[trigger] n[i].0@,
                        #[trigger] n[j].0@,
                    ) by {
                        if j < p {
                            assert(key_lt(o[i].0@, o[j].0@));
                        } else if j == p {
                        } else if i < p {
                            assert(key_lt(o[i].0@, key@));
                            if j - 1 > p {
                                assert(key_lt(o[p as int].0@, o[j - 1].0@));
                                lemma_key_lt_transitive(key@, o[p as int].0@, o[j - 1].0@);
                            }
                            lemma_key_lt_transitive(o[i].0@, key@, o[j - 1].0@);
                        } else if i == p {
                            if j - 1 > p {
                                assert(key_lt(o[p as int].0@, o[j - 1].0@));
                                lemma_key_lt_transitive(key@, o[p as int].0@, o[j - 1].0@);
                            }
                        } else {
                            assert(key_lt(o[i - 1].0@, o[j - 1].0@));
                        }
                    }
                }
                Self::lemma_after_insert(o, n, p as int, key@, value@);
            }
        }
        self.entries = entries;
    }

    /// The value stored under `key`, if any.
    pub fn get(&self, key: &String) -> (r: Option<&String>)
        ensures
            r.is_some() == self@.contains_key(key@),
            r.is_some() ==> r.unwrap()@ == self@[key@],
    {
        proof {
            use_type_invariant(self);
        }
        let mut i: usize = 0;
        while i < self.entries.len()
            invariant
                keys_sorted(self.entries@),
                i <= self.entries.len(),
                forall|x: int| 0 <= x < i ==> (#[trigger] self.entries@[x]).0@ != key@,
            decreases self.entries.len() - i,
        {
            if self.entries[i].0 == *key {
                proof {
                    lemma_entries_map_at(self.entries@, i as int);
                }
                return Some(&self.entries[i].1);
            }
            i = i + 1;
        }
        None
    }

    /// The entries in key order.
    pub fn entries(&self) -> (r: &Vec<(String, String)>)
        ensures
            keys_sorted(r@),
            entries_map(r@) == self@,
    {
        proof {
            use_type_invariant(self);
        }
        &self.entries
    }

    /// Whether the snapshot holds no key.
    pub fn is_empty(&self) -> (r: bool)
        ensures
            r == (self@ == Map::<Seq<char>, Seq<char>>::empty()),
    {
        proof {
            if self.entries.len() > 0 {
                assert(self@.contains_key(self.entries@[0].0@));
            } else {
                assert(self@ =~= Map::<Seq<char>, Seq<char>>::empty());
            }
        }
        self.entries.len() == 0
    }

    proof fn lemma_after_update(
        o: Seq<(String, String)>,
        n: Seq<(String, String)>,
        p: int,
        k: Seq<char>,
        v: Seq<char>,
    )
        requires
            keys_sorted(o),
            keys_sorted(n),
            0 <= p < o.len(),
            o[p].0@ == k,
            n.len() == o.len(),
            n[p].0@ == k,
            n[p].1@ == v,
            forall|i: int| 0 <= i < o.len() && i != p ==> n[i] == o[i],
        ensures
            entries_map(n) == entries_map(o).insert(k, v),
    {
        assert forall|i: int| 0 <= i < o.len() implies entries_map(o).contains_key(#[trigger] o[i].0@)
            && entries_map(o)[o[i].0@] == o[i].1@ by {
            lemma_entries_map_at(o, i);
        }
        assert forall|i: int| 0 <= i < n.len() implies entries_map(n).contains_key(#[trigger] n[i].0@)
            && entries_map(n)[n[i].0@] == n[i].1@ by {
            lemma_entries_map_at(n, i);
        }
        let m = entries_map(o).insert(k, v);
        assert forall|q: Seq<char>| #[trigger] entries_map(n).contains_key(q) <==> m.contains_key(q) by {
            if entries_map(n).contains_key(q) {
                let i = choose|i: int| 0 <= i < n.len() && n[i].0@ == q;
                assert(o[i].0@ == q);
            }
            if entries_map(o).contains_key(q) {
                let i = choose|i: int| 0 <= i < o.len() && o[i].0@ == q;
                assert(n[i].0@ == q);
            }
        }
        assert forall|q: Seq<char>| #[trigger] entries_map(n).contains_key(q) implies entries_map(n)[q]
            == m[q] by {
            let i = choose|i: int| 0 <= i < n.len() && n[i].0@ == q;
            assert(n[i].0@ == q);
        }
        assert(entries_map(n) =~= m);
    }

    proof fn lemma_after_insert(
        o: Seq<(String, String)>,
        n: Seq<(String, String)>,
        p: int,
        k: Seq<char>,
        v: Seq<char>,
    )
        requires
            keys_sorted(o),
            keys_sorted(n),
            0 <= p <= o.len(),
            n.len() == o.len() + 1,
            n[p].0@ == k,
            n[p].1@ == v,
            forall|i: int| 0 <= i < p ==> n[i] == o[i],
            forall|i: int| p < i < n.len() ==> n[i] == o[i - 1],
        ensures
            entries_map(n) == entries_map(o).insert(k, v),
    {
        assert forall|i: int| 0 <= i < o.len() implies entries_map(o).contains_key(#[trigger] o[i].0@)
            && entries_map(o)[o[i].0@] == o[i].1@ by {
            lemma_entries_map_at(o, i);
        }
        assert forall|i: int| 0 <= i < n.len() implies entries_map(n).contains_key(#[trigger] n[i].0@)
            && entries_map(n)[n[i].0@] == n[i].1@ by {
            lemma_entries_map_at(n, i);
        }
        let m = entries_map(o).insert(k, v);
        assert forall|q: Seq<char>| #[trigger] entries_map(n).contains_key(q) <==> m.contains_key(q) by {
            if entries_map(n).contains_key(q) {
                let i = choose|i: int| 0 <= i < n.len() && n[i].0@ == q;
                if i < p {
                    assert(o[i].0@ == q);
                } else if i > p {
                    assert(o[i - 1].0@ == q);
                }
            }
            if entries_map(o).contains_key(q) {
                let i = choose|i: int| 0 <= i < o.len() && o[i].0@ == q;
                if i < p {
                    assert(n[i].0@ == q);
                } else {
                    assert(n[i + 1].0@ == q);
                }
            }
        }
        assert forall|q: Seq<char>| #[trigger] entries_map(n).contains_key(q) implies entries_map(n)[q]
            == m[q] by {
            let i = choose|i: int| 0 <= i < n.len() && n[i].0@ == q;
            if i < p {
                assert(o[i].0@ == q);
                assert(key_lt(n[i].0@, n[p].0@));
                lemma_key_lt_irreflexive(q);
            } else if i > p {
                assert(o[i - 1].0@ == q);
                assert(key_lt(n[p].0@, n[i].0@));
                lemma_key_lt_irreflexive(q);
            }
        }
        assert(entries_map(n) =~= m);
    }
}

/// One key's change between two snapshots.
pub enum StorageChange {
    Added { key: String, new_value: String },
    Removed { key: String, old_value: String },
    Modified { key: String, old_value: String, new_value: String },
}

/// The key that a change is about.
pub open spec fn change_key(c: StorageChange) -> Seq<char> {
    match c {
        StorageChange::Added { key, .. } => key@,
        StorageChange::Removed { key, .. } => key@,
        StorageChange::Modified { key, .. } => key@,
    }
}

impl StorageChange {
    pub fn key(&self) -> (r: &String)
        ensures
            r@ == change_key(*self),
    {
        match self {
            StorageChange::Added { key, .. } => key,
            StorageChange::Removed { key, .. } => key,
            StorageChange::Modified { key, .. } => key,
        }
    }
}

/// `k` is absent from one side only, or present in both with different values.
pub open spec fn differs(b: Map<Seq<char>, Seq<char>>, a: Map<Seq<char>, Seq<char>>, k: Seq<char>) -> bool {
    b.contains_key(k) != a.contains_key(k) || (b.contains_key(k) && a.contains_key(k) && b[k] != a[k])
}

/// `c` classifies its key correctly for the change from `b` to `a`.
pub open spec fn describes_change(
    c: StorageChange,
    b: Map<Seq<char>, Seq<char>>,
    a: Map<Seq<char>, Seq<char>>,
) -> bool {
    match c {
        StorageChange::Added { key, new_value } => !b.contains_key(key@) && a.contains_key(key@)
            && a[key@] == new_value@,
        StorageChange::Removed { key, old_value } => b.contains_key(key@) && b[key@] == old_value@
            && !a.contains_key(key@),
        StorageChange::Modified { key, old_value, new_value } => b.contains_key(key@)
            && a.contains_key(key@) && b[key@] == old_value@ && a[key@] == new_value@
            && old_value@ != new_value@,
    }
}

/// Some change of `d` is about `k`.
pub open spec fn has_change_for(d: Seq<StorageChange>, k: Seq<char>) -> bool {
    exists|i: int| 0 <= i < d.len() && change_key(#[trigger] d[i]) == k
}

/// The keys that the changes of `d` are about.
pub open spec fn changed_keys(d: Seq<StorageChange>) -> Set<Seq<char>> {
    Set::new(|k: Seq<char>| has_change_for(d, k))
}

/// `d` is the diff from `b` to `a`: each change is correct, the keys are in
/// strictly increasing order, and every key on which the two disagree has a change.
pub open spec fn is_diff_of(
    d: Seq<StorageChange>,
    b: Map<Seq<char>, Seq<char>>,
    a: Map<Seq<char>, Seq<char>>,
) -> bool {
    &&& forall|i: int| 0 <= i < d.len() ==> describes_change(#[trigger] d[i], b, a)
    &&& forall|i: int, j: int|
        0 <= i < j < d.len() ==> key_lt(change_key(#[trigger] d[i]), change_key(#[trigger] d[j]))
    &&& forall|k: Seq<char>| differs(b, a, k) ==> #[trigger] has_change_for(d, k)
}

proof fn lemma_has_change_push(d: Seq<StorageChange>, c: StorageChange, k: Seq<char>)
    requires
        has_change_for(d, k),
    ensures
        has_change_for(d.push(c), k),
{
    let i = choose|i: int| 0 <= i < d.len() && change_key(#[trigger] d[i]) == k;
    assert(d.push(c)[i] == d[i]);
}

/// The changes from `before` to `after`, in key order.
pub fn compute_diff(before: &StorageSnapshot, after: &StorageSnapshot) -> (r: Vec<StorageChange>)
    ensures
        is_diff_of(r@, before@, after@),
{
    proof {
        use_type_invariant(before);
        use_type_invariant(after);
    }
    let ghost bm = before@;
    let ghost am = after@;
    let ghost b = before.entries@;
    let ghost a = after.entries@;
    let bl = before.entries.len();
    let al = after.entries.len();
    let mut d: Vec<StorageChange> = Vec::new();
    let mut i: usize = 0;
    let mut j: usize = 0;
    proof {
        assert forall|x: int| 0 <= x < b.len() implies bm.contains_key(#[trigger] b[x].0@) && bm[b[x].0@]
            == b[x].1@ by {
            lemma_entries_map_at(b, x);
        }
        assert forall|x: int| 0 <= x < a.len() implies am.contains_key(#[trigger] a[x].0@) && am[a[x].0@]
            == a[x].1@ by {
            lemma_entries_map_at(a, x);
        }
    }
    while i < bl || j < al
        invariant
            bm == entries_map(b),
            am == entries_map(a),
            b == before.entries@,
            a == after.entries@,
            keys_sorted(b),
            keys_sorted(a),
            bl == b.len(),
            al == a.len(),
            forall|x: int| 0 <= x < b.len() ==> bm.contains_key(#[trigger] b[x].0@) && bm[b[x].0@] == b[x].1@,
            forall|x: int| 0 <= x < a.len() ==> am.contains_key(#[trigger] a[x].0@) && am[a[x].0@] == a[x].1@,
            i <= bl,
            j <= al,
            forall|x: int| 0 <= x < d@.len() ==> describes_change(#[trigger] d@[x], bm, am),
            forall|x: int, y: int|
                0 <= x < y < d@.len() ==> key_lt(change_key(#[trigger] d@[x]), change_key(#[trigger] d@[y])),
            forall|x: int|
                0 <= x < d@.len() ==> (i < bl ==> key_lt(change_key(#[trigger] d@[x]), b[i as int].0@)) && (j
                    < al ==> key_lt(change_key(d@[x]), a[j as int].0@)),
            forall|x: int| 0 <= x < i ==> (j < al ==> key_lt(#[trigger] b[x].0@, a[j as int].0@)),
            forall|y: int| 0 <= y < j ==> (i < bl ==> key_lt(#[trigger] a[y].0@, b[i as int].0@)),
            forall|x: int| 0 <= x < i ==> differs(bm, am, #[trigger] b[x].0@) ==> has_change_for(d@, b[x].0@),
            forall|y: int| 0 <= y < j ==> differs(bm, am, #[trigger] a[y].0@) ==> has_change_for(d@, a[y].0@),
        decreases bl + al - i - j,
    {
        let ord = if i == bl {
            Ordering::Greater
        } else if j == al {
            Ordering::Less
        } else {
            compare_keys(&before.entries[i].0, &after.entries[j].0)
        };
        let ghost d0 = d@;
        let ghost i0 = i as int;
        let ghost j0 = j as int;
        match ord {
            Ordering::Equal => {
                let ghost k = b[i0].0@;
                if before.entries[i].1 != after.entries[j].1 {
                    d.push(
                        StorageChange::Modified {
                            key: before.entries[i].0.clone(),
                            old_value: before.entries[i].1.clone(),
                            new_value: after.entries[j].1.clone(),
                        },
                    );
                    proof {
                        assert(has_change_for(d@, k)) by {
                            assert(change_key(d@[d0.len() as int]) == k);
                        }
                    }
                }
                i = i + 1;
                j = j + 1;
                proof {
                    assert(a[j0].0@ == k);
                    assert forall|x: int| 0 <= x < d@.len() implies (i < bl ==> key_lt(
                        change_key(#[trigger] d@[x]),
                        b[i as int].0@,
                    )) && (j < al ==> key_lt(change_key(d@[x]), a[j as int].0@)) by {
                        if i < bl {
                            assert(key_lt(b[i0].0@, b[i0 + 1].0@));
                            if x < d0.len() {
                                lemma_key_lt_transitive(change_key(d@[x]), k, b[i0 + 1].0@);
                            }
                        }
                        if j < al {
                            assert(key_lt(a[j0].0@, a[j0 + 1].0@));
                            if x < d0.len() {
                                lemma_key_lt_transitive(change_key(d@[x]), k, a[j0 + 1].0@);
                            }
                        }
                    }
                    assert forall|x: int| 0 <= x < i && j < al implies key_lt(
                        #[trigger] b[x].0@,
                        a[j as int].0@,
                    ) by {
                        if j < al {
                            assert(key_lt(a[j0].0@, a[j0 + 1].0@));
                            if x < i0 {
                                lemma_key_lt_transitive(b[x].0@, k, a[j0 + 1].0@);
                            }
                        }
                    }
                    assert forall|y: int| 0 <= y < j && i < bl implies key_lt(
                        #[trigger] a[y].0@,
                        b[i as int].0@,
                    ) by {
                        if i < bl {
                            assert(key_lt(b[i0].0@, b[i0 + 1].0@));
                            if y < j0 {
                                lemma_key_lt_transitive(a[y].0@, k, b[i0 + 1].0@);
                            }
                        }
                    }
                    assert forall|x: int| 0 <= x < i && differs(bm, am, #[trigger] b[x].0@) implies has_change_for(
                        d@,
                        b[x].0@,
                    ) by {
                        if x < i0 && d@ != d0 {
                            lemma_has_change_push(d0, d@.last(), b[x].0@);
                            assert(d0.push(d@.last()) =~= d@);
                        }
                    }
                    assert forall|y: int| 0 <= y < j && differs(bm, am, #[trigger] a[y].0@) implies has_change_for(
                        d@,
                        a[y].0@,
                    ) by {
                        if y < j0 && d@ != d0 {
                            lemma_has_change_push(d0, d@.last(), a[y].0@);
                            assert(d0.push(d@.last()) =~= d@);
                        }
                    }
                }
            },
            Ordering::Less => {
                let ghost k = b[i0].0@;
                proof {
                    assert forall|y: int| 0 <= y < a.len() implies #[trigger] a[y].0@ != k by {
                        if y < j0 {
                            lemma_key_lt_irreflexive(k);
                        } else if y == j0 {
                            lemma_key_lt_irreflexive(k);
                        } else {
                            lemma_key_lt_transitive(k, a[j0].0@, a[y].0@);
                            lemma_key_lt_irreflexive(k);
                        }
                    }
                    assert(!am.contains_key(k));
                }
                d.push(
                    StorageChange::Removed {
                        key: before.entries[i].0.clone(),
                        old_value: before.entries[i].1.clone(),
                    },
                );
                i = i + 1;
                proof {
                    assert(change_key(d@[d0.len() as int]) == k);
                    assert(has_change_for(d@, k));
                    assert forall|x: int| 0 <= x < d@.len() implies (i < bl ==> key_lt(
                        change_key(#[trigger] d@[x]),
                        b[i as int].0@,
                    )) && (j < al ==> key_lt(change_key(d@[x]), a[j as int].0@)) by {
                        if i < bl {
                            assert(key_lt(b[i0].0@, b[i0 + 1].0@));
                            if x < d0.len() {
                                lemma_key_lt_transitive(change_key(d@[x]), k, b[i0 + 1].0@);
                            }
                        }
                    }
                    assert forall|y: int| 0 <= y < j && i < bl implies key_lt(
                        #[trigger] a[y].0@,
                        b[i as int].0@,
                    ) by {
                        if i < bl {
                            assert(key_lt(b[i0].0@, b[i0 + 1].0@));
                            lemma_key_lt_transitive(a[y].0@, k, b[i0 + 1].0@);
                        }
                    }
                    assert forall|x: int| 0 <= x < i && differs(bm, am, #[trigger] b[x].0@) implies has_change_for(
                        d@,
                        b[x].0@,
                    ) by {
                        if x < i0 {
                            lemma_has_change_push(d0, d@.last(), b[x].0@);
                            assert(d0.push(d@.last()) =~= d@);
                        }
                    }
                    assert forall|y: int| 0 <= y < j && differs(bm, am, #[trigger] a[y].0@) implies has_change_for(
                        d@,
                        a[y].0@,
                    ) by {
                        lemma_has_change_push(d0, d@.last(), a[y].0@);
                        assert(d0.push(d@.last()) =~= d@);
                    }
                }
            },
            Ordering::Greater => {
                let ghost k = a[j0].0@;
                proof {
                    assert forall|x: int| 0 <= x < b.len() implies #[trigger] b[x].0@ != k by {
                        if x < i0 {
                            lemma_key_lt_irreflexive(k);
                        } else if x == i0 {
                            lemma_key_lt_irreflexive(k);
                        } else {
                            lemma_key_lt_transitive(k, b[i0].0@, b[x].0@);
                            lemma_key_lt_irreflexive(k);
                        }
                    }
                    assert(!bm.contains_key(k));
                }
                d.push(
                    StorageChange::Added {
                        key: after.entries[j].0.clone(),
                        new_value: after.entries[j].1.clone(),
                    },
                );
                j = j + 1;
                proof {
                    assert(change_key(d@[d0.len() as int]) == k);
                    assert(has_change_for(d@, k));
                    assert forall|x: int| 0 <= x < d@.len() implies (i < bl ==> key_lt(
                        change_key(#[trigger] d@[x]),
                        b[i as int].0@,
                    )) && (j < al ==> key_lt(change_key(d@[x]), a[j as int].0@)) by {
                        if j < al {
                            assert(key_lt(a[j0].0@, a[j0 + 1].0@));
                            if x < d0.len() {
                                lemma_key_lt_transitive(change_key(d@[x]), k, a[j0 + 1].0@);
                            }
                        }
                    }
                    assert forall|x: int| 0 <= x < i && j < al implies key_lt(
                        #[trigger] b[x].0@,
                        a[j as int].0@,
                    ) by {
                        if j < al {
                            assert(key_lt(a[j0].0@, a[j0 + 1].0@));
                            lemma_key_lt_transitive(b[x].0@, k, a[j0 + 1].0@);
                        }
                    }
                    assert forall|x: int| 0 <= x < i && differs(bm, am, #[trigger] b[x].0@) implies has_change_for(
                        d@,
                        b[x].0@,
                    ) by {
                        lemma_has_change_push(d0, d@.last(), b[x].0@);
                        assert(d0.push(d@.last()) =~= d@);
                    }
                    assert forall|y: int| 0 <= y < j && differs(bm, am, #[trigger] a[y].0@) implies has_change_for(
                        d@,
                        a[y].0@,
                    ) by {
                        if y < j0 {
                            lemma_has_change_push(d0, d@.last(), a[y].0@);
                            assert(d0.push(d@.last()) =~= d@);
                        }
                    }
                }
            },
        }
    }
    proof {
        assert forall|k: Seq<char>| differs(bm, am, k) implies #[trigger] has_change_for(d@, k) by {
            if bm.contains_key(k) {
                let x = key_position(b, k);
                assert(b[x].0@ == k);
            } else {
                let y = key_position(a, k);
                assert(a[y].0@ == k);
            }
        }
    }
    d
}

/// The diff of a snapshot against itself is empty.
pub proof fn diff_of_identical_snapshots_is_empty(d: Seq<StorageChange>, s: Map<Seq<char>, Seq<char>>)
    requires
        is_diff_of(d, s, s),
    ensures
        d.len() == 0,
{
    if d.len() > 0 {
        assert(describes_change(d[0], s, s));
    }
}

/// A diff holds a change for exactly the keys on which the two snapshots
/// disagree, and each change is classified by presence on either side.
pub proof fn diff_covers_exactly_the_differing_keys(
    d: Seq<StorageChange>,
    b: Map<Seq<char>, Seq<char>>,
    a: Map<Seq<char>, Seq<char>>,
)
    requires
        is_diff_of(d, b, a),
    ensures
        changed_keys(d) == Set::new(|k: Seq<char>| differs(b, a, k)),
        forall|i: int|
            0 <= i < d.len() ==> ((#[trigger] d[i] is Added) <==> (!b.contains_key(change_key(d[i]))
                && a.contains_key(change_key(d[i])))),
        forall|i: int|
            0 <= i < d.len() ==> ((#[trigger] d[i] is Removed) <==> (b.contains_key(change_key(d[i]))
                && !a.contains_key(change_key(d[i])))),
        forall|i: int|
            0 <= i < d.len() ==> ((#[trigger] d[i] is Modified) <==> (b.contains_key(change_key(d[i]))
                && a.contains_key(change_key(d[i])))),
{
    assert forall|k: Seq<char>| has_change_for(d, k) implies differs(b, a, k) by {
        let i = choose|i: int| 0 <= i < d.len() && change_key(#[trigger] d[i]) == k;
        assert(describes_change(d[i], b, a));
    }
    assert forall|i: int| 0 <= i < d.len() implies describes_change(#[trigger] d[i], b, a) by {}
    assert(changed_keys(d) =~= Set::new(|k: Seq<char>| differs(b, a, k)));
}

/// Swapping the two snapshots changes the same keys, with Added and Removed
/// exchanged and Modified kept.
pub proof fn diff_key_set_is_symmetric(
    d1: Seq<StorageChange>,
    d2: Seq<StorageChange>,
    a: Map<Seq<char>, Seq<char>>,
    b: Map<Seq<char>, Seq<char>>,
)
    requires
        is_diff_of(d1, a, b),
        is_diff_of(d2, b, a),
    ensures
        changed_keys(d1) == changed_keys(d2),
        forall|i: int, j: int|
            0 <= i < d1.len() && 0 <= j < d2.len() && change_key(d1[i]) == change_key(d2[j]) ==> {
                &&& (#[trigger] d1[i] is Added) == (#[trigger] d2[j] is Removed)
                &&& (d1[i] is Removed) == (d2[j] is Added)
                &&& (d1[i] is Modified) == (d2[j] is Modified)
            },
{
    diff_covers_exactly_the_differing_keys(d1, a, b);
    diff_covers_exactly_the_differing_keys(d2, b, a);
    assert(changed_keys(d1) =~= changed_keys(d2)) by {
        assert forall|k: Seq<char>| differs(a, b, k) == differs(b, a, k) by {}
    }
    assert forall|i: int, j: int|
        0 <= i < d1.len() && 0 <= j < d2.len() && change_key(d1[i]) == change_key(d2[j]) implies {
        &&& (#[trigger] d1[i] is Added) == (#[trigger] d2[j] is Removed)
        &&& (d1[i] is Removed) == (d2[j] is Added)
        &&& (d1[i] is Modified) == (d2[j] is Modified)
    } by {
        assert(describes_change(d1[i], a, b));
        assert(describes_change(d2[j], b, a));
    }
}

} // verus!
