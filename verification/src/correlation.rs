//! Correlation identifiers that tie a captured request to its response.
//!
//! An identifier packs the low 32 bits of the process start time (in seconds
//! since the Unix epoch) into its high half and the low 32 bits of a
//! per-process counter into its low half.

use vstd::prelude::*;

verus! {

/// 2^32: the span of each half of a correlation identifier.
pub open spec fn half_span() -> int {
    0x1_0000_0000
}

/// The identifier built from a start time and a counter value.
pub open spec fn correlation_id_spec(start_secs: u64, counter: u64) -> int {
    ((start_secs as int) % half_span()) * half_span() + (counter as int) % half_span()
}

/// The high half of an identifier: the process start time it was built from.
pub open spec fn start_half(id: int) -> int {
    id / half_span()
}

/// The low half of an identifier: the counter value it was built from.
pub open spec fn counter_half(id: int) -> int {
    id % half_span()
}

/// Packs a start time and a counter into an identifier:
/// the start time fills the high 32 bits, the counter the low 32 bits.
pub fn compose_correlation_id(start_secs: u64, counter: u64) -> (id: u64)
    ensures
        id == correlation_id_spec(start_secs, counter),
{
    let id = (start_secs << 32u64) | (counter & 0xFFFF_FFFFu64);
    assert(((start_secs << 32u64) | (counter & 0xFFFF_FFFFu64)) == (start_secs % 0x1_0000_0000)
        * 0x1_0000_0000 + counter % 0x1_0000_0000) by (bit_vector);
    id
}

/// An identifier gives back both halves it was built from.
pub proof fn lemma_correlation_id_halves(start_secs: u64, counter: u64)
    ensures
        0 <= correlation_id_spec(start_secs, counter) <= u64::MAX,
        start_half(correlation_id_spec(start_secs, counter)) == (start_secs as int) % half_span(),
        counter_half(correlation_id_spec(start_secs, counter)) == (counter as int) % half_span(),
{
    let hi = (start_secs as int) % half_span();
    let lo = (counter as int) % half_span();
    assert(0 <= hi < half_span());
    assert(0 <= lo < half_span());
    assert(0 <= hi * half_span() <= (half_span() - 1) * half_span()) by (nonlinear_arith)
        requires
            0 <= hi < half_span(),
            half_span() == 0x1_0000_0000,
    ;
    vstd::arithmetic::div_mod::lemma_fundamental_div_mod_converse(
        hi * half_span() + lo,
        half_span(),
        hi,
        lo,
    );
}

/// Two identifiers built from the same start time are equal exactly when
/// their counters agree in the low 32 bits.
pub proof fn lemma_correlation_id_injective(s1: u64, c1: u64, s2: u64, c2: u64)
    ensures
        correlation_id_spec(s1, c1) == correlation_id_spec(s2, c2) <==> ((s1 as int) % half_span()
            == (s2 as int) % half_span() && (c1 as int) % half_span() == (c2 as int) % half_span()),
{
    lemma_correlation_id_halves(s1, c1);
    lemma_correlation_id_halves(s2, c2);
}

/// A source of correlation identifiers for one process: the process start
/// time and a counter that starts at 1 and wraps around on overflow.
pub struct CorrelationIdGenerator {
    start_secs: u64,
    counter: u64,
}

impl CorrelationIdGenerator {
    /// The start time (seconds since the Unix epoch) the generator stamps into identifiers.
    pub closed spec fn start(&self) -> u64 {
        self.start_secs
    }

    /// The counter value the next identifier will carry.
    pub closed spec fn next_counter(&self) -> u64 {
        self.counter
    }

    /// A generator for a process that started at `start_secs`; its first
    /// identifier carries counter value 1.
    pub fn new(start_secs: u64) -> (g: Self)
        ensures
            g.start() == start_secs,
            g.next_counter() == 1,
    {
        CorrelationIdGenerator { start_secs, counter: 1 }
    }

    /// Hands out the next identifier and advances the counter by one (wrapping).
    pub fn next_id(&mut self) -> (id: u64)
        ensures
            id == correlation_id_spec(old(self).start(), old(self).next_counter()),
            final(self).start() == old(self).start(),
            final(self).next_counter() == (old(self).next_counter() + 1) % 0x1_0000_0000_0000_0000,
    {
        let id = compose_correlation_id(self.start_secs, self.counter);
        self.counter = self.counter.wrapping_add(1);
        id
    }
}

/// The counter value a generator holds after `n` calls, starting from `c0`.
pub open spec fn counter_after(c0: u64, n: nat) -> int
    decreases n,
{
    if n == 0 {
        c0 as int
    } else {
        (counter_after(c0, (n - 1) as nat) + 1) % 0x1_0000_0000_0000_0000
    }
}

/// After `n` calls the counter has advanced by `n`, wrapping around at 2^64.
pub proof fn lemma_counter_after_closed_form(c0: u64, n: nat)
    ensures
        counter_after(c0, n) == (c0 + n) % 0x1_0000_0000_0000_0000,
    decreases n,
{
    if n > 0 {
        lemma_counter_after_closed_form(c0, (n - 1) as nat);
        let m: int = 0x1_0000_0000_0000_0000;
        vstd::arithmetic::div_mod::lemma_add_mod_noop(c0 + n - 1, 1, m);
        vstd::arithmetic::div_mod::lemma_mod_twice(c0 + n - 1, m);
        vstd::arithmetic::div_mod::lemma_small_mod(1, m as nat);
    } else {
        vstd::arithmetic::div_mod::lemma_small_mod(c0 as nat, 0x1_0000_0000_0000_0000);
    }
}

/// Identifiers handed out by one generator are pairwise distinct within any
/// window of fewer than 2^32 consecutive calls: the `i`-th and `j`-th calls
/// (counting from any state) give different identifiers when `i < j < i + 2^32`.
pub proof fn lemma_generator_ids_distinct(start_secs: u64, c0: u64, i: nat, j: nat)
    requires
        i < j,
        j < i + half_span(),
    ensures
        correlation_id_spec(start_secs, counter_after(c0, i) as u64) != correlation_id_spec(
            start_secs,
            counter_after(c0, j) as u64,
        ),
{
    lemma_counter_after_closed_form(c0, i);
    lemma_counter_after_closed_form(c0, j);
    let big: int = 0x1_0000_0000_0000_0000;
    let h = half_span();
    assert(big == h * h);
    vstd::arithmetic::div_mod::lemma_mod_bound(c0 + i, big);
    vstd::arithmetic::div_mod::lemma_mod_bound(c0 + j, big);
    vstd::arithmetic::div_mod::lemma_mod_mod(c0 + i, h, h);
    vstd::arithmetic::div_mod::lemma_mod_mod(c0 + j, h, h);
    lemma_correlation_id_injective(
        start_secs,
        counter_after(c0, i) as u64,
        start_secs,
        counter_after(c0, j) as u64,
    );
    if (c0 + i) % h == (c0 + j) % h {
        vstd::arithmetic::div_mod::lemma_mod_equivalence(c0 + j, c0 + i, h);
        assert((j - i) % h == 0);
        vstd::arithmetic::div_mod::lemma_small_mod((j - i) as nat, h as nat);
        assert(false);
    }
}

/// The identifier that the `k`-th call (counting from 1) of a fresh generator
/// for start time `start_secs` hands out.
pub open spec fn kth_id(start_secs: u64, k: nat) -> int {
    correlation_id_spec(start_secs, counter_after(1, (k - 1) as nat) as u64)
}

/// The `k`-th call of a fresh generator carries counter `k`: for
/// `1 <= k < 2^32` its identifier is the start time's low 32 bits in the high
/// half and `k` in the low half.
pub proof fn lemma_kth_id(start_secs: u64, k: nat)
    requires
        1 <= k < half_span(),
    ensures
        kth_id(start_secs, k) == ((start_secs as int) % half_span()) * half_span() + k,
        start_half(kth_id(start_secs, k)) == (start_secs as int) % half_span(),
        counter_half(kth_id(start_secs, k)) == k,
{
    lemma_counter_after_closed_form(1, (k - 1) as nat);
    vstd::arithmetic::div_mod::lemma_small_mod(k, 0x1_0000_0000_0000_0000);
    assert(counter_after(1, (k - 1) as nat) == k);
    vstd::arithmetic::div_mod::lemma_small_mod(k, half_span() as nat);
    lemma_correlation_id_halves(start_secs, k as u64);
}

/// Identifiers rise with each call: while fewer than 2^32 have been drawn from
/// a fresh generator, an earlier call's identifier is smaller than a later one's.
pub proof fn lemma_generator_ids_increase(start_secs: u64, i: nat, j: nat)
    requires
        1 <= i < j < half_span(),
    ensures
        kth_id(start_secs, i) < kth_id(start_secs, j),
{
    lemma_kth_id(start_secs, i);
    lemma_kth_id(start_secs, j);
}

} // verus!
