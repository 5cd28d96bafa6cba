//! The credential pool: an ordered sequence of credentials, a round-robin
//! cursor, a rotation strategy, and the latency cache written by the probe.
//!
//! Selection returns the *index* of the chosen credential in the pool, so
//! that callers can both read the credential and key the latency cache.

use crate::config::ApiKeyInfo;
use crate::latency::{cache_clear, cache_get, cache_insert, cache_new, latency_entries, LatencyMap};
use vstd::prelude::*;

verus! {

/// The policy by which the pool chooses among model-matching credentials.
#[derive(Debug, Clone, PartialEq, Eq, Structural)]
pub enum RotationStrategy {
    RoundRobin,
    /// Currently identical to round robin; the name reserves room for
    /// weighting by recent failure counts.
    RoundRobinHealthWeighted,
    LeastLatency,
}

/// The strategy a configuration string names; unknown strings degrade to
/// the health-weighted round robin.
pub open spec fn spec_strategy_of(s: Seq<char>) -> RotationStrategy {
    if s == "round_robin"@ {
        RotationStrategy::RoundRobin
    } else if s == "least_latency"@ {
        RotationStrategy::LeastLatency
    } else {
        RotationStrategy::RoundRobinHealthWeighted
    }
}

impl From<&str> for RotationStrategy {
    fn from(s: &str) -> (r: Self) {
        if crate::text::str_eq(s, "round_robin") {
            RotationStrategy::RoundRobin
        } else if crate::text::str_eq(s, "least_latency") {
            RotationStrategy::LeastLatency
        } else {
            RotationStrategy::RoundRobinHealthWeighted
        }
    }
}

impl vstd::std_specs::convert::FromSpecImpl<&str> for RotationStrategy {
    open spec fn obeys_from_spec() -> bool {
        true
    }

    open spec fn from_spec(s: &str) -> Self {
        spec_strategy_of(s@)
    }
}

/// The indices, in pool order, of the credentials that serve `model`.
pub open spec fn spec_matching(keys: Seq<ApiKeyInfo>, model: Seq<char>) -> Seq<int>
    decreases keys.len(),
{
    if keys.len() == 0 {
        Seq::empty()
    } else {
        let prefix = spec_matching(keys.drop_last(), model);
        if keys.last().spec_supports_model(model) {
            prefix.push(keys.len() - 1)
        } else {
            prefix
        }
    }
}

/// Latency, for comparison purposes, of the credential at pool index `i`:
/// the cached sample, or a value above every possible sample when no probe
/// has succeeded for that index yet.
pub open spec fn spec_latency_of(cache: Map<usize, u64>, i: int) -> int {
    if cache.contains_key(i as usize) {
        cache[i as usize] as int
    } else {
        0x1_0000_0000_0000_0000
    }
}

/// The position, within a non-empty index sequence, of the first element of
/// minimum latency.
pub open spec fn spec_first_min_pos(m: Seq<int>, cache: Map<usize, u64>) -> int
    decreases m.len(),
{
    if m.len() <= 1 {
        0
    } else {
        let rest = spec_first_min_pos(m.drop_first(), cache);
        if spec_latency_of(cache, m[0]) <= spec_latency_of(cache, m[rest + 1]) {
            0
        } else {
            rest + 1
        }
    }
}

/// Every index in `spec_matching` is a valid pool index of a credential that
/// serves the model; the sequence is strictly increasing; and it is complete:
/// every serving index occurs in it.
pub proof fn lemma_matching_props(keys: Seq<ApiKeyInfo>, model: Seq<char>)
    ensures
        forall|j: int|
            0 <= j < spec_matching(keys, model).len() ==> {
                &&& 0 <= #[trigger] spec_matching(keys, model)[j] < keys.len()
                &&& keys[spec_matching(keys, model)[j]].spec_supports_model(model)
            },
        forall|j1: int, j2: int|
            0 <= j1 < j2 < spec_matching(keys, model).len() ==> #[trigger] spec_matching(
                keys,
                model,
            )[j1] < #[trigger] spec_matching(keys, model)[j2],
        forall|i: int|
            0 <= i < keys.len() && keys[i].spec_supports_model(model) ==> spec_matching(
                keys,
                model,
            ).contains(i),
    decreases keys.len(),
{
    if keys.len() > 0 {
        lemma_matching_props(keys.drop_last(), model);
        let prefix = spec_matching(keys.drop_last(), model);
        let whole = spec_matching(keys, model);
        assert(keys.drop_last().len() == keys.len() - 1);
        assert(forall|i: int| 0 <= i < keys.len() - 1 ==> keys.drop_last()[i] == keys[i]);
        assert forall|i: int|
            0 <= i < keys.len() && keys[i].spec_supports_model(model) implies whole.contains(
            i,
        ) by {
            if i < keys.len() - 1 {
                assert(prefix.contains(i));
                let j = choose|j: int| 0 <= j < prefix.len() && prefix[j] == i;
                assert(whole[j] == i);
            } else {
                assert(keys.last().spec_supports_model(model));
                assert(whole.last() == i);
            }
        }
    }
}

/// The position `spec_first_min_pos` names is in range, has minimal latency,
/// and every earlier position has strictly greater latency.
pub proof fn lemma_first_min_props(m: Seq<int>, cache: Map<usize, u64>)
    requires
        m.len() > 0,
    ensures
        0 <= spec_first_min_pos(m, cache) < m.len(),
        forall|q: int|
            0 <= q < m.len() ==> spec_latency_of(cache, m[spec_first_min_pos(m, cache)])
                <= spec_latency_of(cache, #[trigger] m[q]),
        forall|q: int|
            0 <= q < spec_first_min_pos(m, cache) ==> spec_latency_of(cache, #[trigger] m[q])
                > spec_latency_of(cache, m[spec_first_min_pos(m, cache)]),
    decreases m.len(),
{
    if m.len() > 1 {
        let rest = m.drop_first();
        lemma_first_min_props(rest, cache);
        let rp = spec_first_min_pos(rest, cache);
        let p = spec_first_min_pos(m, cache);
        assert(forall|q: int| 0 <= q < rest.len() ==> #[trigger] rest[q] == m[q + 1]);
        if spec_latency_of(cache, m[0]) <= spec_latency_of(cache, m[rp + 1]) {
            assert(p == 0);
            assert forall|q: int| 0 <= q < m.len() implies spec_latency_of(cache, m[p])
                <= spec_latency_of(cache, #[trigger] m[q]) by {
                if q >= 1 {
                    assert(rest[q - 1] == m[q]);
                    assert(spec_latency_of(cache, rest[rp]) <= spec_latency_of(cache, rest[q - 1]));
                }
            }
        } else {
            assert(p == rp + 1);
            assert(m[p] == rest[rp]);
            assert forall|q: int| 0 <= q < m.len() implies spec_latency_of(cache, m[p])
                <= spec_latency_of(cache, #[trigger] m[q]) by {
                if q >= 1 {
                    assert(rest[q - 1] == m[q]);
                    assert(spec_latency_of(cache, rest[rp]) <= spec_latency_of(cache, rest[q - 1]));
                }
            }
            assert forall|q: int| 0 <= q < p implies spec_latency_of(cache, #[trigger] m[q])
                > spec_latency_of(cache, m[p]) by {
                if q >= 1 {
                    assert(rest[q - 1] == m[q]);
                    assert(spec_latency_of(cache, rest[q - 1]) > spec_latency_of(cache, rest[rp]));
                }
            }
        }
    }
}

pub struct KeyPool {
    keys: Vec<ApiKeyInfo>,
    current_index: usize,
    strategy: RotationStrategy,
    latency_cache: LatencyMap,
}

impl KeyPool {
    /// The credentials, in configured order.
    pub closed spec fn spec_keys(self) -> Seq<ApiKeyInfo> {
        self.keys@
    }

    /// The shared round-robin cursor.
    pub closed spec fn spec_cursor(self) -> nat {
        self.current_index as nat
    }

    pub closed spec fn spec_strategy(self) -> RotationStrategy {
        self.strategy
    }

    /// The latency samples recorded so far, in milliseconds, by pool index.
    pub closed spec fn spec_cache(self) -> Map<usize, u64> {
        latency_entries(self.latency_cache)
    }

    /// The index a round-robin pick returns for cursor value `cursor`: the
    /// matching subset is indexed cyclically.
    pub open spec fn spec_rr_pick(keys: Seq<ApiKeyInfo>, model: Seq<char>, cursor: nat) -> int {
        let m = spec_matching(keys, model);
        m[(cursor % (m.len() as nat)) as int]
    }

    /// The index a least-latency pick returns: the first matching credential
    /// of minimum cached latency, uncached credentials counting as slowest.
    pub open spec fn spec_ll_pick(
        keys: Seq<ApiKeyInfo>,
        model: Seq<char>,
        cache: Map<usize, u64>,
    ) -> int {
        let m = spec_matching(keys, model);
        m[spec_first_min_pos(m, cache)]
    }

    /// The cursor value after one round-robin step; the counter wraps at the
    /// machine-word boundary.
    pub open spec fn spec_cursor_next(cursor: nat) -> nat {
        if cursor == usize::MAX as nat {
            0
        } else {
            cursor + 1
        }
    }

    pub fn new(keys: Vec<ApiKeyInfo>, strategy: &str) -> (r: KeyPool)
        ensures
            r.spec_keys() == keys@,
            r.spec_cursor() == 0,
            r.spec_strategy() == spec_strategy_of(strategy@),
            forall|k: usize| !r.spec_cache().contains_key(k),
    {
        let mut cache = cache_new();
        cache_clear(&mut cache);
        KeyPool {
            keys,
            current_index: 0,
            strategy: RotationStrategy::from(strategy),
            latency_cache: cache,
        }
    }

    /// The matching subset for `model`: indices of the credentials whose
    /// model list names `model` or the sentinel `"others"`.
    fn matching_indices(&self, model: &str) -> (r: Vec<usize>)
        ensures
            r@.map_values(|u: usize| u as int) == spec_matching(self.spec_keys(), model@),
    {
        let n = self.keys.len();
        let mut r: Vec<usize> = Vec::new();
        let mut i: usize = 0;
        while i < n
            invariant
                n == self.keys@.len(),
                i <= n,
                r@.map_values(|u: usize| u as int) == spec_matching(
                    self.keys@.take(i as int),
                    model@,
                ),
            decreases n - i,
        {
            let ghost prev = self.keys@.take(i as int);
            let supports = self.keys[i].supports_model(model);
            if supports {
                r.push(i);
            }
            proof {
                let cur = self.keys@.take(i + 1);
                assert(cur.drop_last() =~= prev);
                assert(cur.last() == self.keys@[i as int]);
                if supports {
                    assert(r@.map_values(|u: usize| u as int) =~= spec_matching(prev, model@).push(
                        i as int,
                    ));
                } else {
                    assert(r@.map_values(|u: usize| u as int) =~= spec_matching(prev, model@));
                }
            }
            i += 1;
        }
        proof {
            assert(self.keys@.take(n as int) =~= self.keys@);
        }
        r
    }

    /// Selects a credential able to serve `model` under the configured
    /// strategy, returning its pool index. Every returned credential serves
    /// the model; nothing is returned exactly when no credential does.
    pub fn get_key_for_model(&mut self, model: &str) -> (r: Option<usize>)
        ensures
            final(self).spec_keys() == old(self).spec_keys(),
            final(self).spec_strategy() == old(self).spec_strategy(),
            final(self).spec_cache() == old(self).spec_cache(),
            r is None <==> spec_matching(old(self).spec_keys(), model@).len() == 0,
            r is None ==> final(self).spec_cursor() == old(self).spec_cursor(),
            r matches Some(i) ==> 0 <= i < old(self).spec_keys().len() && old(
                self,
            ).spec_keys()[i as int].spec_supports_model(model@),
            (r is Some && !(old(self).spec_strategy() is LeastLatency)) ==> {
                &&& r matches Some(i) && i as int == KeyPool::spec_rr_pick(
                    old(self).spec_keys(),
                    model@,
                    old(self).spec_cursor(),
                )
                &&& final(self).spec_cursor() == KeyPool::spec_cursor_next(
                    old(self).spec_cursor(),
                )
            },
            (r is Some && old(self).spec_strategy() is LeastLatency) ==> {
                &&& r matches Some(i) && i as int == KeyPool::spec_ll_pick(
                    old(self).spec_keys(),
                    model@,
                    old(self).spec_cache(),
                )
                &&& final(self).spec_cursor() == old(self).spec_cursor()
            },
    {
        let ghost okeys = self.spec_keys();
        let ghost ocursor = self.spec_cursor();
        let ghost ocache = self.spec_cache();
        let matching = self.matching_indices(model);
        proof {
            lemma_matching_props(okeys, model@);
        }
        if matching.len() == 0 {
            return None;
        }
        let ghost mseq = matching@.map_values(|u: usize| u as int);
        let picked = match self.strategy {
            RotationStrategy::RoundRobin => self.round_robin_selection(&matching),
            RotationStrategy::RoundRobinHealthWeighted => self.health_weighted_selection(
                &matching,
            ),
            RotationStrategy::LeastLatency => self.least_latency_selection(&matching),
        };
        proof {
            lemma_first_min_props(mseq, ocache);
            assert(mseq.len() == matching@.len());
            let rrpos = (ocursor % (matching@.len() as nat)) as int;
            let llpos = spec_first_min_pos(mseq, ocache);
            assert(0 <= rrpos < matching@.len()) by {
                assert(ocursor % (matching@.len() as nat) < matching@.len() as nat);
            }
            assert(mseq[rrpos] == matching@[rrpos] as int);
            assert(mseq[llpos] == matching@[llpos] as int);
            assert(0 <= mseq[rrpos] < okeys.len() && okeys[mseq[rrpos]].spec_supports_model(
                model@,
            ));
            assert(0 <= mseq[llpos] < okeys.len() && okeys[mseq[llpos]].spec_supports_model(
                model@,
            ));
        }
        picked
    }

    /// Selects across all credentials, ignoring models, by the round-robin
    /// cursor; used to rotate away from a key that just failed.
    pub fn get_next_key(&mut self) -> (r: Option<usize>)
        ensures
            final(self).spec_keys() == old(self).spec_keys(),
            final(self).spec_strategy() == old(self).spec_strategy(),
            final(self).spec_cache() == old(self).spec_cache(),
            old(self).spec_keys().len() == 0 ==> r is None && final(self).spec_cursor() == old(
                self,
            ).spec_cursor(),
            old(self).spec_keys().len() > 0 ==> {
                &&& r matches Some(i) && i as int == old(self).spec_cursor() % (old(
                    self,
                ).spec_keys().len() as nat)
                &&& final(self).spec_cursor() == KeyPool::spec_cursor_next(
                    old(self).spec_cursor(),
                )
            },
    {
        let n = self.keys.len();
        if n == 0 {
            return None;
        }
        let current = self.current_index;
        self.current_index = if current == usize::MAX {
            0
        } else {
            current + 1
        };
        Some(current % n)
    }

    /// Overwrites the cached latency sample for `key_index`; the latest
    /// sample wins.
    pub fn update_latency(&mut self, key_index: usize, latency_ms: u64)
        ensures
            final(self).spec_keys() == old(self).spec_keys(),
            final(self).spec_strategy() == old(self).spec_strategy(),
            final(self).spec_cursor() == old(self).spec_cursor(),
            final(self).spec_cache() == old(self).spec_cache().insert(key_index, latency_ms),
    {
        cache_insert(&mut self.latency_cache, key_index, latency_ms);
    }

    /// All credentials, for probing and for reading a selected credential.
    pub fn get_all_keys(&self) -> (r: &Vec<ApiKeyInfo>)
        ensures
            r@ == self.spec_keys(),
    {
        &self.keys
    }

    fn round_robin_selection(&mut self, matching: &Vec<usize>) -> (r: Option<usize>)
        requires
            matching@.len() > 0,
        ensures
            final(self).spec_keys() == old(self).spec_keys(),
            final(self).spec_strategy() == old(self).spec_strategy(),
            final(self).spec_cache() == old(self).spec_cache(),
            final(self).spec_cursor() == KeyPool::spec_cursor_next(old(self).spec_cursor()),
            r matches Some(i) && i == matching@[(old(self).spec_cursor() % (
            matching@.len() as nat)) as int],
    {
        let current = self.current_index;
        self.current_index = if current == usize::MAX {
            0
        } else {
            current + 1
        };
        let index = current % matching.len();
        Some(matching[index])
    }

    fn health_weighted_selection(&mut self, matching: &Vec<usize>) -> (r: Option<usize>)
        requires
            matching@.len() > 0,
        ensures
            final(self).spec_keys() == old(self).spec_keys(),
            final(self).spec_strategy() == old(self).spec_strategy(),
            final(self).spec_cache() == old(self).spec_cache(),
            final(self).spec_cursor() == KeyPool::spec_cursor_next(old(self).spec_cursor()),
            r matches Some(i) && i == matching@[(old(self).spec_cursor() % (
            matching@.len() as nat)) as int],
    {
        self.round_robin_selection(matching)
    }

    /// The cached latency of the credential at pool index `idx`, or a value
    /// above every possible sample when none is cached.
    fn cached_latency(&self, idx: usize) -> (r: u128)
        ensures
            r == spec_latency_of(self.spec_cache(), idx as int),
    {
        match cache_get(&self.latency_cache, idx) {
            Some(v) => v as u128,
            None => 0x1_0000_0000_0000_0000u128,
        }
    }

    fn least_latency_selection(&self, matching: &Vec<usize>) -> (r: Option<usize>)
        requires
            matching@.len() > 0,
        ensures
            r matches Some(i) && i as int == matching@.map_values(|u: usize| u as int)[
                spec_first_min_pos(
                matching@.map_values(|u: usize| u as int),
                self.spec_cache(),
            )],
    {
        let ghost mseq = matching@.map_values(|u: usize| u as int);
        let ghost cache = self.spec_cache();
        let n = matching.len();
        let mut best_pos: usize = 0;
        let mut best_lat: u128 = self.cached_latency(matching[0]);
        let mut q: usize = 1;
        while q < n
            invariant
                n == matching@.len(),
                mseq == matching@.map_values(|u: usize| u as int),
                cache == self.spec_cache(),
                1 <= q <= n,
                best_pos < q,
                best_lat == spec_latency_of(cache, mseq[best_pos as int]),
                forall|p: int|
                    0 <= p < q ==> spec_latency_of(cache, #[trigger] mseq[p]) >= best_lat,
                forall|p: int|
                    0 <= p < best_pos ==> spec_latency_of(cache, #[trigger] mseq[p]) > best_lat,
            decreases n - q,
        {
            let lat = self.cached_latency(matching[q]);
            if lat < best_lat {
                best_pos = q;
                best_lat = lat;
            }
            q += 1;
        }
        proof {
            lemma_first_min_props(mseq, cache);
            let p = spec_first_min_pos(mseq, cache);
            if (best_pos as int) < p {
                assert(spec_latency_of(cache, mseq[best_pos as int]) > spec_latency_of(
                    cache,
                    mseq[p],
                ));
                assert(spec_latency_of(cache, mseq[p]) >= best_lat);
                assert(false);
            } else if (best_pos as int) > p {
                assert(spec_latency_of(cache, mseq[p]) > best_lat);
                assert(spec_latency_of(cache, mseq[p]) <= spec_latency_of(
                    cache,
                    mseq[best_pos as int],
                ));
                assert(false);
            }
        }
        Some(matching[best_pos])
    }
}

/// The cursor value after `steps` successive selections.
pub open spec fn spec_cursor_after(cursor: nat, steps: nat) -> nat
    decreases steps,
{
    if steps == 0 {
        cursor
    } else {
        KeyPool::spec_cursor_next(spec_cursor_after(cursor, (steps - 1) as nat))
    }
}

/// While the counter stays below the machine-word boundary, stepping the
/// cursor `steps` times just adds `steps`.
pub proof fn lemma_cursor_after_no_wrap(cursor: nat, steps: nat)
    requires
        cursor + steps <= usize::MAX as nat,
    ensures
        spec_cursor_after(cursor, steps) == cursor + steps,
    decreases steps,
{
    if steps > 0 {
        lemma_cursor_after_no_wrap(cursor, (steps - 1) as nat);
    }
}

/// How many of the selections numbered `0 .. count` land on index `target`,
/// when selection number `i` picks `(start + i) % n` — exactly what
/// `get_next_key` returns on a pool of `n` credentials while the cursor does
/// not wrap (see [`lemma_cursor_after_no_wrap`]).
pub open spec fn spec_rr_hits(start: int, count: nat, n: int, target: int) -> nat
    decreases count,
{
    if count == 0 {
        0
    } else {
        spec_rr_hits(start, (count - 1) as nat, n, target) + if (start + count - 1) % n
            == target {
            1nat
        } else {
            0nat
        }
    }
}

proof fn lemma_rr_hits_split(start: int, a: nat, b: nat, n: int, target: int)
    requires
        n > 0,
    ensures
        spec_rr_hits(start, a + b, n, target) == spec_rr_hits(start, a, n, target)
            + spec_rr_hits(start + a, b, n, target),
    decreases b,
{
    if b > 0 {
        lemma_rr_hits_split(start, a, (b - 1) as nat, n, target);
        assert(start + (a + b) - 1 == (start + a) + b - 1);
    }
}

proof fn lemma_rr_hits_cycle_prefix(start: int, count: nat, n: int, target: int)
    requires
        n > 0,
        0 <= target < n,
        count <= n,
    ensures
        spec_rr_hits(start, count, n, target) == if (target - start) % n < count {
            1nat
        } else {
            0nat
        },
    decreases count,
{
    vstd::arithmetic::div_mod::lemma_mod_division_less_than_divisor(target - start, n);
    let delta = (target - start) % n;
    if count > 0 {
        lemma_rr_hits_cycle_prefix(start, (count - 1) as nat, n, target);
        let x = count - 1;
        assert(((start + x) % n == target) <==> (x == delta)) by {
            vstd::arithmetic::div_mod::lemma_fundamental_div_mod(target - start, n);
            let q = (target - start) / n;
            if x == delta {
                assert(n * (-q) == -(n * q)) by (nonlinear_arith);
                assert(start + x == n * (-q) + target);
                vstd::arithmetic::div_mod::lemma_mod_multiples_vanish(-q, target, n);
                assert(target % n == target) by {
                    vstd::arithmetic::power::lemma_pow0(0);
                    vstd::arithmetic::div_mod::lemma_small_mod(target as nat, n as nat);
                }
            } else {
                if (start + x) % n == target {
                    vstd::arithmetic::div_mod::lemma_fundamental_div_mod(start + x, n);
                    let p = (start + x) / n;
                    assert(n * (p + q) == n * p + n * q) by (nonlinear_arith);
                    assert(x - delta == n * (p + q));
                    assert(0 <= x < n);
                    assert(-n < x - delta < n);
                    assert(p + q == 0) by (nonlinear_arith)
                        requires
                            n > 0,
                            -n < n * (p + q) < n,
                    ;
                    assert(false);
                }
            }
        }
    }
}

/// Law (round-robin fairness): over `k·n` successive cursor-driven
/// selections on a pool of `n` credentials, every index is selected exactly
/// `k` times. Selection number `i` picks `(start + i) % n`, which is what
/// `get_next_key` returns while the cursor does not wrap.
pub proof fn lemma_round_robin_fairness(start: int, k: nat, n: int, target: int)
    requires
        n > 0,
        0 <= target < n,
    ensures
        spec_rr_hits(start, k * (n as nat), n, target) == k,
    decreases k,
{
    if k > 0 {
        lemma_round_robin_fairness(start, (k - 1) as nat, n, target);
        let m1: nat = k * (n as nat);
        let m2: nat = (k - 1) as nat * (n as nat) + (n as nat);
        assert(m1 == m2) by (nonlinear_arith)
            requires
                k >= 1,
                m1 == k * (n as nat),
                m2 == (k - 1) as nat * (n as nat) + (n as nat),
        ;
        lemma_rr_hits_split(start, (k - 1) as nat * (n as nat), n as nat, n, target);
        let start2 = start + (k - 1) as nat * (n as nat);
        lemma_rr_hits_cycle_prefix(start2, n as nat, n, target);
        vstd::arithmetic::div_mod::lemma_mod_division_less_than_divisor(target - start2, n);
        assert(spec_rr_hits(start2, n as nat, n, target) == 1);
        assert(spec_rr_hits(start, m2, n, target) == k);
        assert(spec_rr_hits(start, m1, n, target) == k);
    } else {
        assert(k * (n as nat) == 0) by (nonlinear_arith)
            requires
                k == 0,
        ;
    }
}

/// Law (least-latency dominance): when the credential at pool index `i`
/// serves the model and its latency is a strict minimum among the
/// credentials that do, the least-latency pick is exactly `i`. Together with
/// `get_key_for_model`'s contract — which pins the `LeastLatency` result to
/// `spec_ll_pick` and leaves the cache untouched — every subsequent
/// selection returns `i` until a smaller sample is recorded.
pub proof fn lemma_least_latency_dominance(
    keys: Seq<ApiKeyInfo>,
    model: Seq<char>,
    cache: Map<usize, u64>,
    i: int,
)
    requires
        0 <= i < keys.len(),
        keys[i].spec_supports_model(model),
        forall|j: int|
            0 <= j < keys.len() && j != i && (#[trigger] keys[j]).spec_supports_model(model)
                ==> spec_latency_of(cache, i) < spec_latency_of(cache, j),
    ensures
        KeyPool::spec_ll_pick(keys, model, cache) == i,
{
    let m = spec_matching(keys, model);
    lemma_matching_props(keys, model);
    assert(m.contains(i));
    let pi = choose|pi: int| 0 <= pi < m.len() && m[pi] == i;
    lemma_first_min_props(m, cache);
    let p = spec_first_min_pos(m, cache);
    assert(spec_latency_of(cache, m[p]) <= spec_latency_of(cache, m[pi]));
    if m[p] != i {
        assert(0 <= m[p] < keys.len() && keys[m[p]].spec_supports_model(model));
        assert(spec_latency_of(cache, i) < spec_latency_of(cache, m[p]));
        assert(false);
    }
}

} // verus!
