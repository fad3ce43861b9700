//! The pair registry: pair keys, in ascending order, with the address of each pair.
use vstd::prelude::*;

use crate::lex::{
    bytes_equal, find_slot, lemma_lex_irreflexive, lex_less, lemma_lex_total, lemma_lex_transitive, lex_lt,
    strictly_sorted,
};

verus! {

/// Most pairs that one page of a listing holds.
pub const MAX_LIMIT: u32 = 30;

/// Pairs that a page holds when the caller names no limit.
pub const DEFAULT_LIMIT: u32 = 10;

pub struct PairRegistry {
    pub keys: Vec<Vec<u8>>,
    pub addrs: Vec<String>,
}

/// The keys of a registry as byte strings.
pub open spec fn key_views(keys: Seq<Vec<u8>>) -> Seq<Seq<u8>> {
    keys.map_values(|v: Vec<u8>| v@)
}

/// The number of keys that come no later than `cursor`.
pub open spec fn count_not_after(keys: Seq<Seq<u8>>, cursor: Seq<u8>) -> nat
    decreases keys.len(),
{
    if keys.len() == 0 {
        0
    } else {
        count_not_after(keys.drop_last(), cursor) + if lex_lt(cursor, keys.last()) {
            0nat
        } else {
            1nat
        }
    }
}

/// The number of entries that a page holds for the limit asked for.
pub open spec fn page_size(limit: Option<u32>) -> nat {
    match limit {
        None => DEFAULT_LIMIT as nat,
        Some(l) => if l > MAX_LIMIT {
            MAX_LIMIT as nat
        } else {
            l as nat
        },
    }
}

impl PairRegistry {
    /// Keys ascending and unique, one address per key.
    pub open spec fn wf(&self) -> bool {
        &&& self.keys@.len() == self.addrs@.len()
        &&& strictly_sorted(key_views(self.keys@))
    }

    /// The registry as a map from pair key to pair address.
    pub open spec fn view(&self) -> Map<Seq<u8>, String> {
        Map::new(
            |k: Seq<u8>| key_views(self.keys@).contains(k),
            |k: Seq<u8>| self.addrs@[key_views(self.keys@).index_of(k)],
        )
    }

    /// The addresses of the registered pairs whose keys come after
    /// `cursor`, ascending by key, at most `n` of them.
    pub open spec fn page(&self, cursor: Option<Seq<u8>>, n: nat) -> Seq<String> {
        let start = match cursor {
            None => 0,
            Some(c) => count_not_after(key_views(self.keys@), c) as int,
        };
        let end = if start + n > self.addrs@.len() {
            self.addrs@.len() as int
        } else {
            start + n
        };
        self.addrs@.subrange(start, end)
    }

    pub fn new() -> (r: PairRegistry)
        ensures
            r.wf(),
            r@ == Map::<Seq<u8>, String>::empty(),
    {
        let r = PairRegistry { keys: Vec::new(), addrs: Vec::new() };
        assert(r@ =~= Map::<Seq<u8>, String>::empty());
        r
    }

    /// Whether the registry is well formed.
    pub fn check_wf(&self) -> (r: bool)
        ensures
            r == self.wf(),
    {
        if self.keys.len() != self.addrs.len() {
            return false;
        }
        let ghost s = key_views(self.keys@);
        let mut i: usize = 1;
        while i < self.keys.len()
            invariant
                1 <= i,
                s == key_views(self.keys@),
                self.keys@.len() > 0 ==> i <= self.keys@.len(),
                forall|a: int, b: int| 0 <= a < b < i && b < s.len() ==> lex_lt(#[trigger] s[a], #[trigger] s[b]),
            decreases self.keys@.len() - i,
        {
            if !lex_less(self.keys[i - 1].as_slice(), self.keys[i].as_slice()) {
                assert(s[i - 1] == self.keys@[i - 1]@ && s[i as int] == self.keys@[i as int]@);
                return false;
            }
            assert(s[i - 1] == self.keys@[i - 1]@ && s[i as int] == self.keys@[i as int]@);
            assert forall|a: int, b: int| 0 <= a < b < i + 1 && b < s.len() implies lex_lt(
                #[trigger] s[a],
                #[trigger] s[b],
            ) by {
                if b == i && a < i - 1 {
                    lemma_lex_transitive(s[a], s[i - 1], s[b]);
                }
            }
            i = i + 1;
        }
        true
    }

    proof fn lemma_index(&self, i: int)
        requires
            self.wf(),
            0 <= i < self.keys@.len(),
        ensures
            self@.contains_key(self.keys@[i]@),
            self@[self.keys@[i]@] == self.addrs@[i],
    {
        let s = key_views(self.keys@);
        assert(s[i] == self.keys@[i]@);
        assert(s.contains(s[i]));
        let j = s.index_of(s[i]);
        if j != i {
            lemma_lex_irreflexive(s[i]);
        }
    }

    /// Where `k` stands, or would stand, in the registry.
    fn locate(&self, k: &[u8]) -> (r: (usize, bool))
        requires
            self.wf(),
        ensures
            r.0 <= self.keys@.len(),
            r.1 == self@.contains_key(k@),
            r.1 ==> r.0 < self.keys@.len() && self.keys@[r.0 as int]@ == k@,
            forall|j: int| 0 <= j < r.0 ==> lex_lt(#[trigger] self.keys@[j]@, k@),
            !r.1 ==> forall|j: int|
                r.0 <= j < self.keys@.len() ==> lex_lt(k@, #[trigger] self.keys@[j]@),
    {
        let p = find_slot(&self.keys, k);
        let found = p < self.keys.len() && bytes_equal(self.keys[p].as_slice(), k);
        proof {
            let s = key_views(self.keys@);
            if found {
                self.lemma_index(p as int);
            } else {
                assert forall|j: int| p <= j < self.keys@.len() implies lex_lt(
                    k@,
                    #[trigger] self.keys@[j]@,
                ) by {
                    assert(s[p as int] == self.keys@[p as int]@);
                    assert(s[j] == self.keys@[j]@);
                    lemma_lex_total(self.keys@[p as int]@, k@);
                    if j > p {
                        lemma_lex_transitive(k@, self.keys@[p as int]@, self.keys@[j]@);
                    }
                }
                if s.contains(k@) {
                    let j = s.index_of(k@);
                    assert(s[j] == self.keys@[j]@);
                    lemma_lex_irreflexive(k@);
                }
            }
        }
        (p, found)
    }

    /// Whether a pair is registered under `k`.
    pub fn has(&self, k: &[u8]) -> (r: bool)
        requires
            self.wf(),
        ensures
            r == self@.contains_key(k@),
    {
        self.locate(k).1
    }

    /// The address registered under `k`.
    pub fn get(&self, k: &[u8]) -> (r: Option<String>)
        requires
            self.wf(),
        ensures
            r == if self@.contains_key(k@) {
                Some(self@[k@])
            } else {
                None::<String>
            },
    {
        let (p, found) = self.locate(k);
        if found {
            proof {
                self.lemma_index(p as int);
            }
            Some(self.addrs[p].clone())
        } else {
            None
        }
    }

    /// Registers `addr` under `k`, which must not be registered yet.
    pub fn insert(&mut self, k: Vec<u8>, addr: String)
        requires
            old(self).wf(),
            !old(self)@.contains_key(k@),
        ensures
            final(self).wf(),
            final(self)@ == old(self)@.insert(k@, addr),
    {
        let (p, _) = self.locate(k.as_slice());
        let ghost before = key_views(self.keys@);
        let ghost old_addrs = self.addrs@;
        let ghost kv = k@;
        self.keys.insert(p, k);
        self.addrs.insert(p, addr);
        proof {
            let after = key_views(self.keys@);
            assert(after =~= before.insert(p as int, kv));
            assert forall|j: int| 0 <= j < p implies lex_lt(#[trigger] before[j], kv) by {
                assert(before[j] == old(self).keys@[j]@);
            }
            assert forall|j: int| p <= j < before.len() implies lex_lt(kv, #[trigger] before[j]) by {
                assert(before[j] == old(self).keys@[j]@);
            }
            assert forall|a: int, b: int| 0 <= a < b < after.len() implies lex_lt(
                #[trigger] after[a],
                #[trigger] after[b],
            ) by {
                if b < p {
                    assert(after[a] == before[a] && after[b] == before[b]);
                } else if b == p {
                    assert(after[a] == before[a]);
                } else if a == p {
                    assert(after[b] == before[b - 1]);
                } else if a < p {
                    assert(after[a] == before[a] && after[b] == before[b - 1]);
                    lemma_lex_transitive(before[a], kv, before[b - 1]);
                } else {
                    assert(after[a] == before[a - 1] && after[b] == before[b - 1]);
                }
            }
            let m = old(self)@.insert(kv, self.addrs@[p as int]);
            assert forall|x: Seq<u8>| #[trigger] self@.contains_key(x) == m.contains_key(x) by {
                if x == kv {
                    assert(after[p as int] == kv);
                }
                if after.contains(x) {
                    let i = after.index_of(x);
                    if i < p {
                        assert(before[i] == x);
                    } else if i > p {
                        assert(before[i - 1] == x);
                    }
                }
                if before.contains(x) {
                    let i = before.index_of(x);
                    if i < p {
                        assert(after[i] == x);
                    } else {
                        assert(after[i + 1] == x);
                    }
                }
            }
            assert forall|x: Seq<u8>| #[trigger] self@.contains_key(x) implies self@[x] == m[x] by {
                let i = after.index_of(x);
                assert(after[i] == self.keys@[i]@);
                self.lemma_index(i);
                if i < p {
                    assert(before[i] == x);
                    old(self).lemma_index(i);
                } else if i > p {
                    assert(before[i - 1] == x);
                    old(self).lemma_index(i - 1);
                } else {
                    assert(x == kv);
                }
            }
            assert(self@ =~= m);
        }
    }

    /// Removes the pair registered under `k` and returns its address.
    pub fn remove(&mut self, k: &[u8]) -> (r: Option<String>)
        requires
            old(self).wf(),
        ensures
            final(self).wf(),
            r == if old(self)@.contains_key(k@) {
                Some(old(self)@[k@])
            } else {
                None::<String>
            },
            final(self)@ == old(self)@.remove(k@),
    {
        let (p, found) = self.locate(k);
        if !found {
            assert(self@.remove(k@) =~= self@);
            return None;
        }
        proof {
            self.lemma_index(p as int);
        }
        let ghost before = key_views(self.keys@);
        self.keys.remove(p);
        let a = self.addrs.remove(p);
        proof {
            let after = key_views(self.keys@);
            assert(after =~= before.remove(p as int));
            assert forall|a: int, b: int| 0 <= a < b < after.len() implies lex_lt(
                #[trigger] after[a],
                #[trigger] after[b],
            ) by {
                if b < p {
                    assert(after[a] == before[a] && after[b] == before[b]);
                } else if a < p {
                    assert(after[a] == before[a] && after[b] == before[b + 1]);
                } else {
                    assert(after[a] == before[a + 1] && after[b] == before[b + 1]);
                }
            }
            let m = old(self)@.remove(k@);
            assert(before[p as int] == k@);
            assert forall|x: Seq<u8>| #[trigger] self@.contains_key(x) == m.contains_key(x) by {
                if after.contains(x) {
                    let i = after.index_of(x);
                    if i < p {
                        assert(before[i] == x);
                        lemma_lex_irreflexive(x);
                    } else {
                        assert(before[i + 1] == x);
                        lemma_lex_irreflexive(x);
                    }
                }
                if before.contains(x) && x != k@ {
                    let i = before.index_of(x);
                    if i < p {
                        assert(after[i] == x);
                    } else {
                        assert(after[i - 1] == x);
                    }
                }
            }
            assert forall|x: Seq<u8>| #[trigger] self@.contains_key(x) implies self@[x] == m[x] by {
                let i = after.index_of(x);
                assert(after[i] == self.keys@[i]@);
                self.lemma_index(i);
                if i < p {
                    assert(before[i] == x);
                    old(self).lemma_index(i);
                } else {
                    assert(before[i + 1] == x);
                    old(self).lemma_index(i + 1);
                }
            }
            assert(self@ =~= m);
        }
        Some(a)
    }

    /// The addresses of the pairs whose keys come after `cursor`, ascending
    /// by key, as many as `limit` asks for (ten when it names none, thirty at most).
    pub fn page_after(&self, cursor: Option<&[u8]>, limit: Option<u32>) -> (r: Vec<String>)
        requires
            self.wf(),
        ensures
            r@ == self.page(
                match cursor {
                    None => None::<Seq<u8>>,
                    Some(c) => Some(c@),
                },
                page_size(limit),
            ),
    {
        let n: usize = match limit {
            None => DEFAULT_LIMIT as usize,
            Some(l) => if l > MAX_LIMIT {
                MAX_LIMIT as usize
            } else {
                l as usize
            },
        };
        let ghost s = key_views(self.keys@);
        let mut start: usize = 0;
        match cursor {
            None => {},
            Some(c) => {
                while start < self.keys.len() && !lex_less(c, self.keys[start].as_slice())
                    invariant
                        start <= self.keys@.len(),
                        s == key_views(self.keys@),
                        count_not_after(s.take(start as int), c@) == start,
                    decreases self.keys@.len() - start,
                {
                    assert(s.take(start + 1).drop_last() =~= s.take(start as int));
                    assert(s[start as int] == self.keys@[start as int]@);
                    start = start + 1;
                }
                proof {
                    if start < self.keys.len() {
                        assert(s[start as int] == self.keys@[start as int]@);
                        lemma_count_rest(s, c@, start as int);
                    } else {
                        assert(s.take(start as int) =~= s);
                    }
                }
            },
        }
        let mut out: Vec<String> = Vec::new();
        let mut i: usize = start;
        while i < self.addrs.len() && i - start < n
            invariant
                start <= i <= self.addrs@.len(),
                i - start <= n,
                n == page_size(limit),
                start == match cursor {
                    None => 0,
                    Some(c) => count_not_after(key_views(self.keys@), c@) as int,
                },
                out@ == self.addrs@.subrange(start as int, i as int),
            decreases self.addrs@.len() - i,
        {
            out.push(self.addrs[i].clone());
            assert(self.addrs@.subrange(start as int, i + 1) =~= self.addrs@.subrange(
                start as int,
                i as int,
            ).push(self.addrs@[i as int]));
            i = i + 1;
        }
        out
    }
}

/// Once a key after the cursor is found in a sorted list, every key after it
/// is after the cursor too, so the count of keys not after the cursor stops growing.
proof fn lemma_count_rest(s: Seq<Seq<u8>>, c: Seq<u8>, start: int)
    requires
        strictly_sorted(s),
        0 <= start < s.len(),
        lex_lt(c, s[start]),
        count_not_after(s.take(start), c) == start,
    ensures
        count_not_after(s, c) == start,
{
    lemma_count_prefix(s, c, start, s.len() as int);
    assert(s.take(s.len() as int) =~= s);
}

proof fn lemma_count_prefix(s: Seq<Seq<u8>>, c: Seq<u8>, start: int, k: int)
    requires
        strictly_sorted(s),
        0 <= start < s.len(),
        start <= k <= s.len(),
        lex_lt(c, s[start]),
        count_not_after(s.take(start), c) == start,
    ensures
        count_not_after(s.take(k), c) == start,
    decreases k - start,
{
    if k > start {
        lemma_count_prefix(s, c, start, k - 1);
        assert(s.take(k).drop_last() =~= s.take(k - 1));
        if k - 1 > start {
            lemma_lex_transitive(c, s[start], s[k - 1]);
        }
    }
}

} // verus!
