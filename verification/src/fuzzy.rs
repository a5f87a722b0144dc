//! The fuzzy fingerprint index: an append-only ordered collection of
//! (fingerprint, value) pairs answering approximate queries by Hamming
//! distance.
//!
//! `matching` keeps every entry at or after a scan position whose distance to
//! the query stays within the index's ceiling and ranks the survivors by
//! ascending distance, ties kept in insertion order. `get` walks that ranked
//! list and accepts each candidate with a fixed probability, so nearer
//! matches are more likely to win but never certain to.

use vstd::arithmetic::power2::{lemma2_to64, pow2};
use vstd::prelude::*;

verus! {

/// The number of one bits in a nonnegative integer.
pub open spec fn popcount(x: int) -> nat
    decreases x when x >= 0
{
    if x <= 0 {
        0nat
    } else {
        (x % 2 + popcount(x / 2)) as nat
    }
}

/// The Hamming distance between two fingerprints: the number of bits on
/// which they differ.
pub open spec fn hamming(a: u32, b: u32) -> nat {
    popcount((a ^ b) as int)
}

/// A number's popcount never exceeds the number itself.
proof fn lemma_popcount_le_self(x: int)
    requires
        x >= 0,
    ensures
        popcount(x) <= x,
    decreases x,
{
    if x > 0 {
        lemma_popcount_le_self(x / 2);
    }
}

/// A number below `pow2(k)` has at most `k` one bits.
proof fn lemma_popcount_width(x: int, k: nat)
    requires
        0 <= x < pow2(k),
    ensures
        popcount(x) <= k,
    decreases k,
{
    if k == 0 {
        assert(pow2(0) == 1) by {
            lemma2_to64();
        }
    } else {
        assert(pow2(k) == 2 * pow2((k - 1) as nat)) by {
            vstd::arithmetic::power2::lemma_pow2_unfold(k);
        }
        vstd::arithmetic::div_mod::lemma_fundamental_div_mod(x, 2);
        lemma_popcount_width(x / 2, (k - 1) as nat);
    }
}

/// Two 32-bit fingerprints differ in at most 32 bits.
pub proof fn lemma_hamming_le_32(a: u32, b: u32)
    ensures
        hamming(a, b) <= 32,
{
    lemma2_to64();
    lemma_popcount_width((a ^ b) as int, 32);
}

/// The number of bits on which two fingerprints differ.
pub fn hamming_distance(a: u32, b: u32) -> (r: u32)
    ensures
        r as nat == hamming(a, b),
{
    let mut x: u32 = a ^ b;
    let mut c: u32 = 0;
    proof {
        lemma_popcount_le_self(x as int);
    }
    while x != 0
        invariant
            c + popcount(x as int) == hamming(a, b),
            hamming(a, b) <= u32::MAX,
        decreases x,
    {
        c = c + (x % 2);
        x = x / 2;
    }
    c
}

/// Per-candidate acceptance probability used by `get`.
///
/// A probability is a 64-bit scale out of two to the sixty-fourth: a trial
/// draws a fresh uniformly random 64-bit value and succeeds when the draw
/// falls below the scale. Certainty is not reachable that way, so it is a
/// variant of its own, and a trial under it consumes no randomness. Every
/// representable chance lies in the unit interval, so no out-of-range
/// probability can be constructed.
#[derive(Debug, Clone, Copy, PartialEq, Eq, Structural)]
pub enum MatchChance {
    /// Every trial succeeds: resolution is deterministic.
    Always,
    /// A trial succeeds with probability `scale / 2^64`. `Scaled(0)` never
    /// succeeds; `Scaled(1 << 63)` is an even chance.
    Scaled(u64),
}

#[verifier::external_type_specification]
#[verifier::external_body]
pub struct ExSmallRng(rand::rngs::SmallRng);

/// Relies on `rand::RngCore::next_u64`: one uniformly random 64-bit value.
/// Nothing is promised of the draw; callers state what holds of every
/// outcome.
#[verifier::external_body]
fn next_random_u64(rng: &mut rand::rngs::SmallRng) -> u64 {
    rand::RngCore::next_u64(rng)
}

/// The values among `entries` whose fingerprint lies at Hamming distance
/// exactly `d` from `pattern`, in insertion order.
pub open spec fn values_at_distance<V>(entries: Seq<(u32, V)>, pattern: u32, d: int) -> Seq<V>
    decreases entries.len(),
{
    if entries.len() == 0 {
        Seq::empty()
    } else {
        let prefix = values_at_distance(entries.drop_last(), pattern, d);
        if hamming(pattern, entries.last().0) == d {
            prefix.push(entries.last().1)
        } else {
            prefix
        }
    }
}

/// The values among `entries` within Hamming distance `d` of `pattern`,
/// grouped by ascending distance, insertion order within each group.
pub open spec fn ranked_up_to<V>(entries: Seq<(u32, V)>, pattern: u32, d: int) -> Seq<V>
    decreases d + 1,
{
    if d < 0 {
        Seq::empty()
    } else {
        ranked_up_to(entries, pattern, d - 1) + values_at_distance(entries, pattern, d)
    }
}

/// The ranked match list: every value of `entries` whose fingerprint lies
/// within `max_distance` of `pattern`, sorted ascending by distance, ties
/// kept in insertion order.
pub open spec fn ranked_matches<V>(entries: Seq<(u32, V)>, pattern: u32, max_distance: u32) -> Seq<
    V,
> {
    ranked_up_to(entries, pattern, max_distance as int)
}

/// The entries at or after scan position `start`; empty when `start` lies
/// beyond the stored count.
pub open spec fn entries_from<V>(entries: Seq<(u32, V)>, start: int) -> Seq<(u32, V)> {
    if 0 <= start <= entries.len() {
        entries.skip(start)
    } else {
        Seq::empty()
    }
}

/// No entry sits at a distance beyond 32 from any query.
proof fn lemma_values_beyond_32_empty<V>(entries: Seq<(u32, V)>, pattern: u32, d: int)
    requires
        d > 32,
    ensures
        values_at_distance(entries, pattern, d) == Seq::<V>::empty(),
    decreases entries.len(),
{
    if entries.len() > 0 {
        lemma_values_beyond_32_empty(entries.drop_last(), pattern, d);
        lemma_hamming_le_32(pattern, entries.last().0);
    }
}

/// Raising the distance ceiling past 32 adds nothing to the ranked list.
proof fn lemma_ranked_stabilizes<V>(entries: Seq<(u32, V)>, pattern: u32, d: int)
    requires
        d >= 32,
    ensures
        ranked_up_to(entries, pattern, d) == ranked_up_to(entries, pattern, 32),
    decreases d,
{
    if d > 32 {
        lemma_values_beyond_32_empty::<V>(entries, pattern, d);
        lemma_ranked_stabilizes(entries, pattern, d - 1);
        assert(ranked_up_to(entries, pattern, d) =~= ranked_up_to(entries, pattern, d - 1));
    }
}

/// An append-only store of (fingerprint, value) pairs with approximate,
/// rank-biased, probabilistic lookup by Hamming distance.
pub struct FuzzyBitMap<V> {
    data: Vec<(u32, V)>,
    max_distance: u32,
    match_chance: MatchChance,
}

impl<V> FuzzyBitMap<V> {
    /// The stored (fingerprint, value) pairs, in insertion order.
    pub closed spec fn entries(&self) -> Seq<(u32, V)> {
        self.data@
    }

    /// The inclusive Hamming-distance ceiling for candidacy.
    pub closed spec fn max_distance(&self) -> u32 {
        self.max_distance
    }

    /// The per-candidate acceptance probability used by `get`.
    pub closed spec fn match_chance(&self) -> MatchChance {
        self.match_chance
    }

    /// An empty index with the given distance ceiling and acceptance
    /// probability.
    pub fn new(max_distance: u32, match_chance: MatchChance) -> (r: FuzzyBitMap<V>)
        ensures
            r.entries() == Seq::<(u32, V)>::empty(),
            r.max_distance() == max_distance,
            r.match_chance() == match_chance,
    {
        FuzzyBitMap { data: Vec::new(), max_distance, match_chance }
    }

    /// Appends one association. Entries are never reordered, removed or
    /// updated in place; duplicates of the same fingerprint are kept and
    /// independently retrievable.
    pub fn insert(&mut self, pattern: u32, value: V)
        ensures
            final(self).entries() == old(self).entries().push((pattern, value)),
            final(self).max_distance() == old(self).max_distance(),
            final(self).match_chance() == old(self).match_chance(),
    {
        self.data.push((pattern, value));
    }
}

impl<V: Copy> FuzzyBitMap<V> {
    /// The ranked match list for `pattern`, scanning the entries at or after
    /// `index`: every value within the distance ceiling, sorted ascending by
    /// distance, ties kept in insertion order.
    pub fn matching(&self, pattern: u32, index: usize) -> (res: Vec<V>)
        ensures
            res@ == ranked_matches(
                entries_from(self.entries(), index as int),
                pattern,
                self.max_distance(),
            ),
    {
        let ghost tail = entries_from(self.entries(), index as int);
        let n = self.data.len();
        let cap: u32 = if self.max_distance > 32 {
            32
        } else {
            self.max_distance
        };
        let mut res: Vec<V> = Vec::new();
        let mut d: u32 = 0;
        while d <= cap
            invariant
                d <= cap + 1,
                cap == (if self.max_distance() > 32 {
                    32u32
                } else {
                    self.max_distance()
                }),
                n == self.entries().len(),
                tail == entries_from(self.entries(), index as int),
                res@ == ranked_up_to(tail, pattern, d as int - 1),
            decreases cap + 1 - d,
        {
            let mut i: usize = index;
            if i > n {
                i = n;
                proof {
                    assert(tail =~= Seq::<(u32, V)>::empty());
                }
            }
            while i < n
                invariant
                    index <= n ==> index <= i <= n,
                    index > n ==> i == n,
                    n == self.entries().len(),
                    tail == entries_from(self.entries(), index as int),
                    d <= cap,
                    res@ == ranked_up_to(tail, pattern, d as int - 1) + values_at_distance(
                        tail.take(if index <= n { i - index } else { 0 }),
                        pattern,
                        d as int,
                    ),
                decreases n - i,
            {
                let (stored, value) = self.data[i];
                let ghost m = i - index;
                let distance = hamming_distance(pattern, stored);
                if distance == d {
                    res.push(value);
                }
                proof {
                    assert(tail.take(m + 1).drop_last() =~= tail.take(m));
                    assert(tail.take(m + 1).last() == (stored, value));
                }
                i = i + 1;
            }
            proof {
                if index <= n {
                    assert(tail.take(n - index) =~= tail);
                } else {
                    assert(tail.take(0) =~= tail);
                }
            }
            d = d + 1;
        }
        proof {
            if self.max_distance() > 32 {
                lemma_ranked_stabilizes(tail, pattern, self.max_distance() as int);
            }
        }
        res
    }

    /// Walks the ranked match list for `pattern` from scan position `index`
    /// and returns the first candidate that survives an independent
    /// probabilistic trial, or nothing when the list is exhausted — even
    /// when exact matches exist. Under `MatchChance::Always` the closest
    /// match always wins; under `MatchChance::Scaled(0)` nothing ever does.
    pub fn get(&self, pattern: u32, index: usize, rng: &mut rand::rngs::SmallRng) -> (r: Option<
        V,
    >)
        ensures
            ({
                let cands = ranked_matches(
                    entries_from(self.entries(), index as int),
                    pattern,
                    self.max_distance(),
                );
                &&& (match r {
                    Some(v) => cands.contains(v),
                    None => true,
                })
                &&& (cands.len() == 0 ==> r is None)
                &&& (self.match_chance() is Always && cands.len() > 0 ==> r == Some(cands[0]))
                &&& (self.match_chance() == MatchChance::Scaled(0) ==> r is None)
            }),
    {
        let cands = self.matching(pattern, index);
        let mut k: usize = 0;
        while k < cands.len()
            invariant
                k <= cands@.len(),
                cands@ == ranked_matches(
                    entries_from(self.entries(), index as int),
                    pattern,
                    self.max_distance(),
                ),
                k > 0 ==> !(self.match_chance() is Always),
            decreases cands@.len() - k,
        {
            let accept = match self.match_chance {
                MatchChance::Always => true,
                MatchChance::Scaled(scale) => next_random_u64(rng) < scale,
            };
            if accept {
                proof {
                    assert(cands@.contains(cands@[k as int]));
                }
                return Some(cands[k]);
            }
            k = k + 1;
        }
        None
    }
}

/// Membership in the ranked list is exactly membership among the scanned
/// entries within the distance bound: every qualifying entry's value is
/// kept, and nothing else enters the list.
pub proof fn lemma_ranked_membership<V>(entries: Seq<(u32, V)>, pattern: u32, d: int, v: V)
    ensures
        ranked_up_to(entries, pattern, d).contains(v) <==> exists|i: int|
            0 <= i < entries.len() && hamming(pattern, entries[i].0) <= d && entries[i].1 == v,
    decreases d + 1,
{
    if d < 0 {
        assert(forall|i: int|
            0 <= i < entries.len() ==> #[trigger] hamming(pattern, entries[i].0) >= 0);
    } else {
        lemma_ranked_membership(entries, pattern, d - 1, v);
        lemma_values_membership(entries, pattern, d, v);
        lemma_contains_in_concat(
            ranked_up_to(entries, pattern, d - 1),
            values_at_distance(entries, pattern, d),
            v,
        );
        if exists|i: int|
            0 <= i < entries.len() && hamming(pattern, entries[i].0) <= d && entries[i].1 == v {
            let i = choose|i: int|
                0 <= i < entries.len() && hamming(pattern, entries[i].0) <= d && entries[i].1
                    == v;
            assert(hamming(pattern, entries[i].0) <= d - 1 || hamming(pattern, entries[i].0)
                == d);
        }
    }
}

/// A sequence extended by one value contains exactly what it contained
/// before, plus that value.
proof fn lemma_contains_in_push<V>(s: Seq<V>, e: V, v: V)
    ensures
        s.push(e).contains(v) <==> s.contains(v) || v == e,
{
    if s.contains(v) {
        let i = choose|i: int| 0 <= i < s.len() && s[i] == v;
        assert(s.push(e)[i] == v);
    }
    if v == e {
        assert(s.push(e)[s.len() as int] == v);
    }
    if s.push(e).contains(v) {
        let i = choose|i: int| 0 <= i < s.push(e).len() && s.push(e)[i] == v;
        if i < s.len() {
            assert(s[i] == v);
        }
    }
}

/// A value appears among the values at distance exactly `d` if and only if
/// some entry carries it at that distance.
proof fn lemma_values_membership<V>(entries: Seq<(u32, V)>, pattern: u32, d: int, v: V)
    ensures
        values_at_distance(entries, pattern, d).contains(v) <==> exists|i: int|
            0 <= i < entries.len() && hamming(pattern, entries[i].0) == d && entries[i].1 == v,
    decreases entries.len(),
{
    if entries.len() == 0 {
    } else {
        let n = entries.len() as int;
        let prefix = entries.drop_last();
        let last = entries.last();
        lemma_values_membership(prefix, pattern, d, v);
        if hamming(pattern, last.0) == d {
            lemma_contains_in_push(values_at_distance(prefix, pattern, d), last.1, v);
        }
        assert(entries[n - 1] == last);
        if exists|i: int|
            0 <= i < prefix.len() && hamming(pattern, prefix[i].0) == d && prefix[i].1 == v {
            let i = choose|i: int|
                0 <= i < prefix.len() && hamming(pattern, prefix[i].0) == d && prefix[i].1 == v;
            assert(entries[i] == prefix[i]);
            assert(0 <= i < n && hamming(pattern, entries[i].0) == d && entries[i].1 == v);
        }
        if exists|i: int|
            0 <= i < n && hamming(pattern, entries[i].0) == d && entries[i].1 == v {
            let i = choose|i: int|
                0 <= i < n && hamming(pattern, entries[i].0) == d && entries[i].1 == v;
            if i < n - 1 {
                assert(prefix[i] == entries[i]);
                assert(0 <= i < prefix.len() && hamming(pattern, prefix[i].0) == d && prefix[i].1
                    == v);
            }
        }
    }
}

/// A concatenation contains a value exactly when one of its parts does.
proof fn lemma_contains_in_concat<V>(a: Seq<V>, b: Seq<V>, v: V)
    ensures
        (a + b).contains(v) <==> a.contains(v) || b.contains(v),
{
    if a.contains(v) {
        let i = choose|i: int| 0 <= i < a.len() && a[i] == v;
        assert((a + b)[i] == v);
    }
    if b.contains(v) {
        let i = choose|i: int| 0 <= i < b.len() && b[i] == v;
        assert((a + b)[a.len() + i] == v);
    }
    if (a + b).contains(v) {
        let i = choose|i: int| 0 <= i < (a + b).len() && (a + b)[i] == v;
        if i < a.len() {
            assert(a[i] == v);
        } else {
            assert(b[i - a.len()] == v);
        }
    }
}

/// A query whose distance to every scanned entry exceeds the ceiling has an
/// empty ranked match list, so resolution reports no match whatever the
/// acceptance chance says.
pub proof fn lemma_ranked_empty_beyond_ceiling<V>(
    entries: Seq<(u32, V)>,
    pattern: u32,
    max_distance: u32,
)
    requires
        forall|i: int|
            0 <= i < entries.len() ==> #[trigger] hamming(pattern, entries[i].0) > max_distance,
    ensures
        ranked_matches(entries, pattern, max_distance).len() == 0,
{
    let ranked = ranked_matches(entries, pattern, max_distance);
    if ranked.len() > 0 {
        let v = ranked[0];
        assert(ranked.contains(v));
        lemma_ranked_membership(entries, pattern, max_distance as int, v);
    }
}

/// Position restriction: a value enters the ranked match list of a scan from
/// `start` exactly on the strength of an entry at or after `start` within
/// the distance ceiling; matching entries inserted earlier than `start` are
/// excluded.
pub proof fn lemma_position_restriction<V>(
    entries: Seq<(u32, V)>,
    pattern: u32,
    max_distance: u32,
    start: int,
    v: V,
)
    requires
        0 <= start <= entries.len(),
    ensures
        ranked_matches(entries_from(entries, start), pattern, max_distance).contains(v) <==> exists|
            i: int,
        |
            start <= i < entries.len() && hamming(pattern, entries[i].0) <= max_distance
                && entries[i].1 == v,
{
    let tail = entries.skip(start);
    lemma_ranked_membership(tail, pattern, max_distance as int, v);
    if exists|j: int|
        0 <= j < tail.len() && hamming(pattern, tail[j].0) <= max_distance && tail[j].1 == v {
        let j = choose|j: int|
            0 <= j < tail.len() && hamming(pattern, tail[j].0) <= max_distance && tail[j].1 == v;
        assert(entries[start + j] == tail[j]);
    }
    if exists|i: int|
        start <= i < entries.len() && hamming(pattern, entries[i].0) <= max_distance
            && entries[i].1 == v {
        let i = choose|i: int|
            start <= i < entries.len() && hamming(pattern, entries[i].0) <= max_distance
                && entries[i].1 == v;
        assert(tail[i - start] == entries[i]);
    }
}

} // verus!
