//! The ones'-complement checksum engine shared by the IPv4 header and
//! TCP rewrite paths: folding, validity, and the algebra that justifies
//! both full recomputation and incremental (delta) updates.

use vstd::arithmetic::div_mod::{
    lemma_fundamental_div_mod, lemma_mod_multiples_vanish, lemma_small_mod,
};
use vstd::prelude::*;

verus! {

/// The plain integer sum of a sequence of 16-bit words.
pub open spec fn word_sum(s: Seq<u16>) -> int
    decreases s.len(),
{
    if s.len() == 0 {
        0
    } else {
        s[0] + word_sum(s.subrange(1, s.len() as int))
    }
}

/// Carry folding: add the upper bits of a sum back into the low 16
/// until the value fits 16 bits.
pub open spec fn fold16(n: int) -> int
    decreases n,
{
    if n < 0x10000 {
        n
    } else {
        fold16(n % 0x10000 + n / 0x10000)
    }
}

/// A word sequence (with its stored checksum in place) passes checksum
/// verification: the total is a positive multiple of 0xffff, so the
/// receiver's fold of the whole sequence comes out as 0xffff.
pub open spec fn checksum_ok(words: Seq<u16>) -> bool {
    word_sum(words) > 0 && word_sum(words) % 0xffff == 0
}

pub proof fn lemma_word_sum_nonneg(s: Seq<u16>)
    ensures
        word_sum(s) >= 0,
    decreases s.len(),
{
    if s.len() > 0 {
        lemma_word_sum_nonneg(s.subrange(1, s.len() as int));
    }
}

pub proof fn lemma_word_sum_append(a: Seq<u16>, b: Seq<u16>)
    ensures
        word_sum(a + b) == word_sum(a) + word_sum(b),
    decreases a.len(),
{
    if a.len() == 0 {
        assert(a + b =~= b);
    } else {
        let t = a.subrange(1, a.len() as int);
        lemma_word_sum_append(t, b);
        assert((a + b).subrange(1, (a + b).len() as int) =~= t + b);
    }
}

/// Folding stays within 16 bits and never reaches zero from a positive
/// sum.
pub proof fn lemma_fold16_range(n: int)
    requires
        n >= 0,
    ensures
        0 <= fold16(n) <= 0xffff,
        n > 0 ==> 1 <= fold16(n),
    decreases n,
{
    if n >= 0x10000 {
        lemma_fundamental_div_mod(n, 0x10000);
        lemma_fold16_range(n % 0x10000 + n / 0x10000);
    }
}

/// Folding preserves the value modulo 0xffff.
pub proof fn lemma_fold16_congruent(n: int)
    requires
        n >= 0,
    ensures
        fold16(n) % 0xffff == n % 0xffff,
    decreases n,
{
    if n >= 0x10000 {
        let q = n / 0x10000;
        let r = n % 0x10000;
        lemma_fundamental_div_mod(n, 0x10000);
        assert(n == 0xffff * q + (r + q));
        lemma_mod_multiples_vanish(q, r + q, 0xffff);
        lemma_fold16_congruent(r + q);
    }
}

/// Two positive sums congruent modulo 0xffff fold to the same 16-bit
/// value.
pub proof fn lemma_fold16_eq(a: int, b: int)
    requires
        a > 0,
        b > 0,
        a % 0xffff == b % 0xffff,
    ensures
        fold16(a) == fold16(b),
{
    let fa = fold16(a);
    let fb = fold16(b);
    lemma_fold16_range(a);
    lemma_fold16_range(b);
    lemma_fold16_congruent(a);
    lemma_fold16_congruent(b);
    if fa < 0xffff {
        lemma_small_mod(fa as nat, 0xffff);
    }
    if fb < 0xffff {
        lemma_small_mod(fb as nat, 0xffff);
    }
    assert(0xffff as int % 0xffff == 0);
}

/// Storing the complement of the folded sum yields a sequence that
/// passes checksum verification: `s` is the word total with the
/// checksum field zeroed, and `0xffff - fold16(s)` the value stored.
pub proof fn lemma_complement_makes_valid(s: int)
    requires
        s >= 0,
    ensures
        (s + 0xffff - fold16(s)) % 0xffff == 0,
        s + 0xffff - fold16(s) > 0,
{
    lemma_fold16_range(s);
    lemma_fold16_congruent(s);
    let c = 0xffff - fold16(s);
    let total = s + c;
    lemma_fundamental_div_mod(s, 0xffff);
    lemma_fundamental_div_mod(fold16(s), 0xffff);
    let qs = s / 0xffff;
    let qf = fold16(s) / 0xffff;
    assert(total == 0xffff * (qs - qf + 1));
    lemma_mod_multiples_vanish(qs - qf + 1, 0, 0xffff);
    assert(total % 0xffff == 0int % 0xffff);
    if s == 0 {
        assert(total == 0xffff);
    }
}

/// The RFC 1624 delta update: with `s` the unchanged part of the word
/// total, `m` the old and `mp` the new values of the `k` rewritten
/// words, and `hc` the old stored checksum of a sequence that passed
/// verification, the checksum rebuilt from the complemented delta sum
/// makes the rewritten sequence pass verification too.
pub proof fn lemma_incremental_update(s: int, m: int, mp: int, hc: int, k: int)
    requires
        s >= 1,
        m >= 0,
        mp >= 0,
        0 <= hc <= 0xffff,
        k >= 0,
        m <= k * 0xffff,
        (s + m + hc) % 0xffff == 0,
    ensures
        ({
            let d = (0xffff - hc) + (k * 0xffff - m) + mp;
            let hc_new = 0xffff - fold16(d);
            (s + mp + hc_new) % 0xffff == 0 && s + mp + hc_new > 0 && d >= 0
        }),
{
    let d = (0xffff - hc) + (k * 0xffff - m) + mp;
    let a = s + m + hc;
    lemma_fundamental_div_mod(a, 0xffff);
    let qa = a / 0xffff;
    assert(a == 0xffff * qa);
    assert(d == 0xffff * (k + 1 - qa) + (s + mp));
    lemma_mod_multiples_vanish(k + 1 - qa, s + mp, 0xffff);
    assert(d % 0xffff == (s + mp) % 0xffff);
    lemma_fold16_congruent(d);
    lemma_fold16_range(d);
    let hc_new = 0xffff - fold16(d);
    let total = s + mp + hc_new;
    lemma_fundamental_div_mod(s + mp, 0xffff);
    lemma_fundamental_div_mod(fold16(d), 0xffff);
    let q1 = (s + mp) / 0xffff;
    let q2 = fold16(d) / 0xffff;
    assert(total == 0xffff * (q1 - q2 + 1));
    lemma_mod_multiples_vanish(q1 - q2 + 1, 0, 0xffff);
    assert(total % 0xffff == 0int % 0xffff);
    assert(total >= s);
}

/// Fold a 64-bit accumulated checksum value down to the 16 bits an
/// IP/TCP/UDP header stores.
pub fn fold_checksum(csum: u64) -> (r: u16)
    ensures
        r == fold16(csum as int),
{
    proof {
        if csum > 0 {
            lemma_fundamental_div_mod(csum as int, 0x1_0000_0000);
            assert(csum as int == 0xffff * (0x10001 * (csum as int / 0x1_0000_0000))
                + (csum as int % 0x1_0000_0000 + csum as int / 0x1_0000_0000));
            lemma_mod_multiples_vanish(
                0x10001 * (csum as int / 0x1_0000_0000),
                csum as int % 0x1_0000_0000 + csum as int / 0x1_0000_0000,
                0xffff,
            );
            lemma_fold16_eq(
                csum as int,
                csum as int % 0x1_0000_0000 + csum as int / 0x1_0000_0000,
            );
        }
    }
    let mut c: u64 = (csum % 0x1_0000_0000) + (csum / 0x1_0000_0000);
    while c >= 0x10000
        invariant
            fold16(c as int) == fold16(csum as int),
        decreases c,
    {
        c = (c % 0x10000) + (c / 0x10000);
    }
    c as u16
}

} // verus!
