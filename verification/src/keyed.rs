//! Collections keyed by text, kept in the byte order of their keys (the
//! order in which `String`s compare).

use vstd::prelude::*;
use vstd::utf8::*;

verus! {

broadcast use {vstd::string::group_string_axioms, vstd::utf8::encode_utf8_decode_utf8};

/// The bytes by which a key is ordered: its UTF-8 encoding.
pub open spec fn key_bytes(k: Seq<char>) -> Seq<u8> {
    encode_utf8(k)
}

/// `a` comes before `b` in byte-wise lexicographic order.
pub open spec fn bytes_before(a: Seq<u8>, b: Seq<u8>) -> bool {
    exists|i: int| #[trigger] differs_first_at(a, b, i)
}

/// `a` and `b` agree before `i`, and at `i` `a` has ended while `b` goes on,
/// or `a`'s byte is the smaller.
pub open spec fn differs_first_at(a: Seq<u8>, b: Seq<u8>, i: int) -> bool {
    &&& 0 <= i <= a.len()
    &&& i <= b.len()
    &&& forall|j: int| 0 <= j < i ==> a[j] == b[j]
    &&& (i == a.len() && i < b.len()) || (i < a.len() && i < b.len() && a[i] < b[i])
}

/// Key `a` sorts before key `b`.
pub open spec fn key_before(a: Seq<char>, b: Seq<char>) -> bool {
    bytes_before(key_bytes(a), key_bytes(b))
}

pub proof fn lemma_bytes_before_irreflexive(a: Seq<u8>)
    ensures
        !bytes_before(a, a),
{
}

pub proof fn lemma_bytes_before_transitive(a: Seq<u8>, b: Seq<u8>, c: Seq<u8>)
    requires
        bytes_before(a, b),
        bytes_before(b, c),
    ensures
        bytes_before(a, c),
{
    let i = choose|i: int| differs_first_at(a, b, i);
    let j = choose|j: int| differs_first_at(b, c, j);
    if i < j {
        assert(differs_first_at(a, c, i));
    } else if j < i {
        assert(differs_first_at(a, c, j));
    } else {
        assert(differs_first_at(a, c, i));
    }
}

pub proof fn lemma_bytes_before_total(a: Seq<u8>, b: Seq<u8>)
    requires
        a != b,
    ensures
        bytes_before(a, b) || bytes_before(b, a),
{
    let n = if a.len() < b.len() { a.len() as int } else { b.len() as int };
    if forall|j: int| 0 <= j < n ==> a[j] == b[j] {
        if a.len() == b.len() {
            assert(a =~= b);
        } else if a.len() < b.len() {
            assert(differs_first_at(a, b, n));
        } else {
            assert(differs_first_at(b, a, n));
        }
    } else {
        let k = choose|k: int| 0 <= k < n && a[k] != b[k];
        lemma_first_difference(a, b, k);
    }
}

proof fn lemma_first_difference(a: Seq<u8>, b: Seq<u8>, k: int)
    requires
        0 <= k < a.len(),
        k < b.len(),
        a[k] != b[k],
    ensures
        bytes_before(a, b) || bytes_before(b, a),
    decreases k,
{
    if exists|j: int| 0 <= j < k && a[j] != b[j] {
        let j = choose|j: int| 0 <= j < k && a[j] != b[j];
        lemma_first_difference(a, b, j);
    } else if a[k] < b[k] {
        assert(differs_first_at(a, b, k));
    } else {
        assert(differs_first_at(b, a, k));
    }
}

/// Distinct keys are ordered one way or the other.
pub proof fn lemma_key_before_total(a: Seq<char>, b: Seq<char>)
    requires
        a != b,
    ensures
        key_before(a, b) || key_before(b, a),
{
    assert(decode_utf8(key_bytes(a)) == a);
    assert(decode_utf8(key_bytes(b)) == b);
    lemma_bytes_before_total(key_bytes(a), key_bytes(b));
}

/// Where a key stands relative to another.
pub enum KeyRank {
    Before,
    Same,
    After,
}

/// Compare two byte strings lexicographically.
pub fn rank_bytes(a: &[u8], b: &[u8]) -> (r: KeyRank)
    ensures
        r is Before <==> bytes_before(a@, b@),
        r is Same <==> a@ == b@,
        r is After <==> bytes_before(b@, a@),
{
    let n = if a.len() < b.len() { a.len() } else { b.len() };
    let mut i: usize = 0;
    while i < n
        invariant
            i <= n,
            n == (if a@.len() < b@.len() { a@.len() } else { b@.len() }),
            forall|j: int| 0 <= j < i ==> a@[j] == b@[j],
        decreases n - i,
    {
        if a[i] < b[i] {
            assert(differs_first_at(a@, b@, i as int));
            proof {
                if bytes_before(b@, a@) {
                    lemma_bytes_before_transitive(a@, b@, a@);
                }
            }
            return KeyRank::Before;
        }
        if a[i] > b[i] {
            assert(differs_first_at(b@, a@, i as int));
            proof {
                if bytes_before(a@, b@) {
                    lemma_bytes_before_transitive(a@, b@, a@);
                }
            }
            return KeyRank::After;
        }
        i = i + 1;
    }
    if a.len() < b.len() {
        assert(differs_first_at(a@, b@, n as int));
        proof {
            if bytes_before(b@, a@) {
                lemma_bytes_before_transitive(a@, b@, a@);
            }
        }
        KeyRank::Before
    } else if a.len() > b.len() {
        assert(differs_first_at(b@, a@, n as int));
        proof {
            if bytes_before(a@, b@) {
                lemma_bytes_before_transitive(a@, b@, a@);
            }
        }
        KeyRank::After
    } else {
        assert(a@ =~= b@);
        KeyRank::Same
    }
}

/// Compare two keys in the order of their bytes.
pub fn rank_keys(a: &str, b: &str) -> (r: KeyRank)
    ensures
        r is Before <==> key_before(a@, b@),
        r is Same <==> a@ == b@,
        r is After <==> key_before(b@, a@),
{
    proof {
        assert(decode_utf8(key_bytes(a@)) == a@);
        assert(decode_utf8(key_bytes(b@)) == b@);
    }
    rank_bytes(a.as_bytes(), b.as_bytes())
}

/// The entries are in strictly increasing key order (so no key repeats).
pub open spec fn sorted_keys<V>(s: Seq<(String, V)>) -> bool {
    forall|i: int, j: int| 0 <= i < j < s.len() ==> key_before(#[trigger] s[i].0@, #[trigger] s[j].0@)
}

/// The value stored under `k`, if any (the first entry with that key).
pub open spec fn lookup<V>(s: Seq<(String, V)>, k: Seq<char>) -> Option<V> {
    if exists|i: int| 0 <= i < s.len() && (#[trigger] s[i]).0@ == k {
        Some(s[choose|i: int| 0 <= i < s.len() && (#[trigger] s[i]).0@ == k].1)
    } else {
        None
    }
}

proof fn lemma_sorted_unique<V>(s: Seq<(String, V)>, i: int, j: int)
    requires
        sorted_keys(s),
        0 <= i < s.len(),
        0 <= j < s.len(),
        s[i].0@ == s[j].0@,
    ensures
        i == j,
{
    if i < j {
        assert(key_before(s[i].0@, s[j].0@));
        lemma_bytes_before_irreflexive(key_bytes(s[i].0@));
    } else if j < i {
        assert(key_before(s[j].0@, s[i].0@));
        lemma_bytes_before_irreflexive(key_bytes(s[i].0@));
    }
}

/// In sorted entries, the value of the key at position `i` is the value there.
pub proof fn lemma_lookup_at<V>(s: Seq<(String, V)>, i: int)
    requires
        sorted_keys(s),
        0 <= i < s.len(),
    ensures
        lookup(s, s[i].0@) == Some(s[i].1),
{
    let k = s[i].0@;
    let c = choose|c: int| 0 <= c < s.len() && (#[trigger] s[c]).0@ == k;
    lemma_sorted_unique(s, i, c);
}

/// Entries kept in the byte order of their text keys, each key once.
pub struct KeyedList<V> {
    entries: Vec<(String, V)>,
}

impl<V> KeyedList<V> {
    /// The entries, in key order.
    pub closed spec fn entries_view(&self) -> Seq<(String, V)> {
        self.entries@
    }

    /// Keys are strictly increasing.
    pub closed spec fn well_formed(&self) -> bool {
        sorted_keys(self.entries@)
    }

    /// An empty list.
    pub fn new() -> (r: Self)
        ensures
            r.well_formed(),
            r.entries_view() == Seq::<(String, V)>::empty(),
    {
        KeyedList { entries: Vec::new() }
    }

    /// Number of keys.
    pub fn len(&self) -> (n: usize)
        ensures
            n == self.entries_view().len(),
    {
        self.entries.len()
    }

    /// The entry at position `i` in key order.
    pub fn entry_at(&self, i: usize) -> (r: (&String, &V))
        requires
            i < self.entries_view().len(),
        ensures
            *r.0 == self.entries_view()[i as int].0,
            *r.1 == self.entries_view()[i as int].1,
    {
        let e = &self.entries[i];
        (&e.0, &e.1)
    }

    /// Binary search: the position of `key`, or where it would be inserted.
    fn search(&self, key: &str) -> (r: Result<usize, usize>)
        requires
            self.well_formed(),
        ensures
            r matches Ok(i) ==> i < self.entries_view().len() && self.entries_view()[i as int].0@ == key@,
            r matches Err(p) ==> p <= self.entries_view().len()
                && (forall|t: int| 0 <= t < p ==> key_before((#[trigger] self.entries_view()[t]).0@, key@))
                && (forall|t: int| p <= t < self.entries_view().len() ==> key_before(key@, (#[trigger] self.entries_view()[t]).0@)),
    {
        let mut lo: usize = 0;
        let mut hi: usize = self.entries.len();
        while lo < hi
            invariant
                lo <= hi <= self.entries@.len(),
                sorted_keys(self.entries@),
                forall|t: int| 0 <= t < lo ==> key_before((#[trigger] self.entries@[t]).0@, key@),
                forall|t: int| hi <= t < self.entries@.len() ==> key_before(key@, (#[trigger] self.entries@[t]).0@),
            decreases hi - lo,
        {
            let mid = lo + (hi - lo) / 2;
            match rank_keys(self.entries[mid].0.as_str(), key) {
                KeyRank::Same => {
                    return Ok(mid);
                },
                KeyRank::Before => {
                    proof {
                        assert forall|t: int| 0 <= t < mid + 1 implies key_before((#[trigger] self.entries@[t]).0@, key@) by {
                            if t < mid {
                                assert(key_before(self.entries@[t].0@, self.entries@[mid as int].0@));
                                lemma_bytes_before_transitive(
                                    key_bytes(self.entries@[t].0@),
                                    key_bytes(self.entries@[mid as int].0@),
                                    key_bytes(key@),
                                );
                            }
                        }
                    }
                    lo = mid + 1;
                },
                KeyRank::After => {
                    proof {
                        assert forall|t: int| mid <= t < self.entries@.len() implies key_before(key@, (#[trigger] self.entries@[t]).0@) by {
                            if t > mid {
                                assert(key_before(self.entries@[mid as int].0@, self.entries@[t].0@));
                                lemma_bytes_before_transitive(
                                    key_bytes(key@),
                                    key_bytes(self.entries@[mid as int].0@),
                                    key_bytes(self.entries@[t].0@),
                                );
                            }
                        }
                    }
                    hi = mid;
                },
            }
        }
        Err(lo)
    }

    /// The value stored under `key`.
    pub fn get(&self, key: &str) -> (r: Option<&V>)
        requires
            self.well_formed(),
        ensures
            r matches Some(v) ==> lookup(self.entries_view(), key@) == Some(*v),
            r is None ==> lookup(self.entries_view(), key@) is None,
    {
        match self.search(key) {
            Ok(i) => {
                proof {
                    lemma_lookup_at(self.entries@, i as int);
                }
                Some(&self.entries[i].1)
            },
            Err(p) => {
                proof {
                    assert forall|t: int| 0 <= t < self.entries@.len() implies (#[trigger] self.entries@[t]).0@ != key@ by {
                        if self.entries@[t].0@ == key@ {
                            lemma_bytes_before_irreflexive(key_bytes(key@));
                        }
                    }
                }
                None
            },
        }
    }

    /// Whether `key` is stored.
    pub fn contains(&self, key: &str) -> (b: bool)
        requires
            self.well_formed(),
        ensures
            b == (lookup(self.entries_view(), key@) is Some),
    {
        match self.get(key) {
            Some(_) => true,
            None => false,
        }
    }

    /// Store `value` under `key`, replacing what was there.
    pub fn upsert(&mut self, key: String, value: V)
        requires
            old(self).well_formed(),
        ensures
            final(self).well_formed(),
            lookup(final(self).entries_view(), key@) == Some(value),
            forall|k: Seq<char>| k != key@ ==> #[trigger] lookup(final(self).entries_view(), k) == lookup(old(self).entries_view(), k),
            final(self).entries_view().len() == old(self).entries_view().len() + (if lookup(old(self).entries_view(), key@) is Some { 0int } else { 1int }),
    {
        let ghost old_s = self.entries@;
        match self.search(key.as_str()) {
            Ok(i) => {
                let ghost k = key@;
                self.entries.set(i, (key, value));
                proof {
                    let s = self.entries@;
                    assert(s == old_s.update(i as int, (s[i as int].0, value)));
                    assert(sorted_keys(s)) by {
                        assert forall|a: int, b: int| 0 <= a < b < s.len() implies key_before(#[trigger] s[a].0@, #[trigger] s[b].0@) by {
                            assert(old_s[a].0@ == s[a].0@);
                            assert(old_s[b].0@ == s[b].0@);
                        }
                    }
                    lemma_lookup_at(s, i as int);
                    lemma_lookup_at(old_s, i as int);
                    assert forall|k2: Seq<char>| k2 != k implies #[trigger] lookup(s, k2) == lookup(old_s, k2) by {
                        if exists|t: int| 0 <= t < s.len() && (#[trigger] s[t]).0@ == k2 {
                            let t = choose|t: int| 0 <= t < s.len() && (#[trigger] s[t]).0@ == k2;
                            lemma_lookup_at(s, t);
                            lemma_lookup_at(old_s, t);
                        } else {
                            assert forall|t: int| 0 <= t < old_s.len() implies (#[trigger] old_s[t]).0@ != k2 by {
                                assert(s[t].0@ == old_s[t].0@);
                            }
                        }
                    }
                }
            },
            Err(p) => {
                let ghost k = key@;
                self.entries.insert(p, (key, value));
                proof {
                    let s = self.entries@;
                    assert(s == old_s.insert(p as int, (s[p as int].0, value)));
                    assert forall|t: int| 0 <= t < old_s.len() implies (#[trigger] old_s[t]).0@ != k by {
                        if old_s[t].0@ == k {
                            lemma_bytes_before_irreflexive(key_bytes(k));
                        }
                    }
                    assert(sorted_keys(s)) by {
                        assert forall|a: int, b: int| 0 <= a < b < s.len() implies key_before(#[trigger] s[a].0@, #[trigger] s[b].0@) by {
                            if a < p && b < p {
                                assert(s[a] == old_s[a] && s[b] == old_s[b]);
                            } else if a < p && b == p {
                                assert(s[a] == old_s[a]);
                            } else if a < p && b > p {
                                assert(s[a] == old_s[a] && s[b] == old_s[b - 1]);
                                lemma_bytes_before_transitive(key_bytes(s[a].0@), key_bytes(k), key_bytes(s[b].0@));
                            } else if a == p {
                                assert(s[b] == old_s[b - 1]);
                            } else {
                                assert(s[a] == old_s[a - 1] && s[b] == old_s[b - 1]);
                            }
                        }
                    }
                    lemma_lookup_at(s, p as int);
                    assert forall|k2: Seq<char>| k2 != k implies #[trigger] lookup(s, k2) == lookup(old_s, k2) by {
                        if exists|t: int| 0 <= t < s.len() && (#[trigger] s[t]).0@ == k2 {
                            let t = choose|t: int| 0 <= t < s.len() && (#[trigger] s[t]).0@ == k2;
                            lemma_lookup_at(s, t);
                            assert(t != p);
                            let ot = if t < p { t } else { t - 1 };
                            assert(old_s[ot] == s[t]);
                            lemma_lookup_at(old_s, ot);
                        } else {
                            assert forall|t: int| 0 <= t < old_s.len() implies (#[trigger] old_s[t]).0@ != k2 by {
                                let nt = if t < p { t } else { t + 1 };
                                assert(s[nt] == old_s[t]);
                            }
                        }
                    }
                }
            },
        }
    }

    /// Remove and return the value stored under `key`.
    pub fn take(&mut self, key: &str) -> (r: Option<V>)
        requires
            old(self).well_formed(),
        ensures
            final(self).well_formed(),
            r == lookup(old(self).entries_view(), key@),
            lookup(final(self).entries_view(), key@) is None,
            forall|k: Seq<char>| k != key@ ==> #[trigger] lookup(final(self).entries_view(), k) == lookup(old(self).entries_view(), k),
    {
        let ghost old_s = self.entries@;
        match self.search(key) {
            Ok(i) => {
                proof {
                    lemma_lookup_at(old_s, i as int);
                }
                let (_, v) = self.entries.remove(i);
                proof {
                    let s = self.entries@;
                    assert(s == old_s.remove(i as int));
                    assert(sorted_keys(s)) by {
                        assert forall|a: int, b: int| 0 <= a < b < s.len() implies key_before(#[trigger] s[a].0@, #[trigger] s[b].0@) by {
                            let oa = if a < i { a } else { a + 1 };
                            let ob = if b < i { b } else { b + 1 };
                            assert(s[a] == old_s[oa] && s[b] == old_s[ob]);
                        }
                    }
                    assert forall|t: int| 0 <= t < s.len() implies (#[trigger] s[t]).0@ != key@ by {
                        let ot = if t < i { t } else { t + 1 };
                        assert(s[t] == old_s[ot]);
                        if s[t].0@ == key@ {
                            lemma_sorted_unique(old_s, ot, i as int);
                        }
                    }
                    assert forall|k2: Seq<char>| k2 != key@ implies #[trigger] lookup(s, k2) == lookup(old_s, k2) by {
                        if exists|t: int| 0 <= t < s.len() && (#[trigger] s[t]).0@ == k2 {
                            let t = choose|t: int| 0 <= t < s.len() && (#[trigger] s[t]).0@ == k2;
                            lemma_lookup_at(s, t);
                            let ot = if t < i { t } else { t + 1 };
                            assert(old_s[ot] == s[t]);
                            lemma_lookup_at(old_s, ot);
                        } else {
                            assert forall|t: int| 0 <= t < old_s.len() implies (#[trigger] old_s[t]).0@ != k2 by {
                                if t != i {
                                    let nt = if t < i { t } else { t - 1 };
                                    assert(s[nt] == old_s[t]);
                                }
                            }
                        }
                    }
                }
                Some(v)
            },
            Err(_) => {
                proof {
                    assert forall|t: int| 0 <= t < old_s.len() implies (#[trigger] old_s[t]).0@ != key@ by {
                        if old_s[t].0@ == key@ {
                            lemma_bytes_before_irreflexive(key_bytes(key@));
                        }
                    }
                }
                None
            },
        }
    }
}

/// A well-formed list holds its entries in strictly increasing key order.
pub proof fn lemma_keyed_sorted<V>(l: KeyedList<V>)
    requires
        l.well_formed(),
    ensures
        sorted_keys(l.entries_view()),
{
}

/// The keys held by entries.
pub open spec fn key_set<V>(s: Seq<(String, V)>) -> Set<Seq<char>> {
    Set::new(|k: Seq<char>| lookup(s, k) is Some)
}

/// A well-formed list holds as many entries as it has distinct keys.
pub proof fn lemma_key_set_len<V>(l: KeyedList<V>)
    requires
        l.well_formed(),
    ensures
        key_set(l.entries_view()).finite(),
        key_set(l.entries_view()).len() == l.entries_view().len(),
{
    let s = l.entries_view();
    let keys = s.map_values(|e: (String, V)| e.0@);
    assert(keys.no_duplicates()) by {
        assert forall|i: int, j: int| 0 <= i < keys.len() && 0 <= j < keys.len() && i != j implies keys[i] != keys[j] by {
            if keys[i] == keys[j] {
                lemma_sorted_unique(s, i, j);
            }
        }
    }
    assert(keys.to_set() =~= key_set(s)) by {
        assert forall|k: Seq<char>| keys.to_set().contains(k) <==> key_set(s).contains(k) by {
            if keys.to_set().contains(k) {
                let i = choose|i: int| 0 <= i < keys.len() && keys[i] == k;
                assert(s[i].0@ == k);
            }
            if key_set(s).contains(k) {
                let i = choose|i: int| 0 <= i < s.len() && (#[trigger] s[i]).0@ == k;
                assert(keys[i] == k);
                assert(keys.contains(k));
            }
        }
    }
    keys.unique_seq_to_set();
    vstd::seq_lib::seq_to_set_is_finite(keys);
}

} // verus!
