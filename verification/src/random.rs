//! Integer state transitions of the xorshift generators of the Modelica
//! standard library (`xorshift64*`, `xorshift128+`, `xorshift1024*`). A state is
//! stored as pairs of `i32` words (low word first); each step returns the raw
//! 64-bit draw that the caller maps to `[0, 1)`.

use vstd::prelude::*;

verus! {

/// The 64-bit value whose low word is `lo` and high word is `hi`.
pub open spec fn spec_u64_from_pair(lo: i32, hi: i32) -> u64 {
    ((hi as u32 as u64) << 32u64) | (lo as u32 as u64)
}

/// The low and high words of `x`.
pub open spec fn spec_pair_from_u64(x: u64) -> (i32, i32) {
    (x as u32 as i32, (x >> 32u64) as u32 as i32)
}

/// Join a low and a high word.
pub fn u64_from_pair(lo: i32, hi: i32) -> (r: u64)
    ensures
        r == spec_u64_from_pair(lo, hi),
{
    let lo = lo as u32 as u64;
    let hi = hi as u32 as u64;
    (hi << 32) | lo
}

/// Split into a low and a high word.
pub fn pair_from_u64(x: u64) -> (r: (i32, i32))
    ensures
        r == spec_pair_from_u64(x),
{
    (x as u32 as i32, (x >> 32) as u32 as i32)
}

/// Splitting a joined pair gives the pair back.
pub proof fn lemma_pair_roundtrip(lo: i32, hi: i32)
    ensures
        spec_pair_from_u64(spec_u64_from_pair(lo, hi)) == (lo, hi),
{
    let l = lo as u32;
    let h = hi as u32;
    assert((((h as u64) << 32u64) | (l as u64)) as u32 == l) by (bit_vector);
    assert(((((h as u64) << 32u64) | (l as u64)) >> 32u64) as u32 == h) by (bit_vector);
    assert(l as i32 == lo) by (bit_vector)
        requires
            l == lo as u32,
    ;
    assert(h as i32 == hi) by (bit_vector)
        requires
            h == hi as u32,
    ;
}

/// Joining the two words of a value gives the value back.
pub proof fn lemma_u64_roundtrip(x: u64)
    ensures
        spec_u64_from_pair(spec_pair_from_u64(x).0, spec_pair_from_u64(x).1) == x,
{
    assert(((((x >> 32u64) as u32 as i32) as u32 as u64) << 32u64) | ((x as u32 as i32) as u32 as u64) == x) by (bit_vector);
}

/// One `xorshift64*` state update.
pub open spec fn xorshift64_update(x0: u64) -> u64 {
    let x1 = x0 ^ (x0 >> 12u64);
    let x2 = x1 ^ (x1 << 25u64);
    x2 ^ (x2 >> 27u64)
}

/// The `xorshift64*` recurrence: `x ^= x >> 12; x ^= x << 25; x ^= x >> 27`,
/// a map that is linear over bits.
pub proof fn law_xorshift64star_recurrence(x: u64, y: u64)
    ensures
        xorshift64_update(x) == ({
            let a = x ^ (x >> 12u64);
            let b = a ^ (a << 25u64);
            b ^ (b >> 27u64)
        }),
        xorshift64_update(x ^ y) == xorshift64_update(x) ^ xorshift64_update(y),
        xorshift64_update(0) == 0,
{
    assert(xorshift64_update(x ^ y) == xorshift64_update(x) ^ xorshift64_update(y)) by (bit_vector);
    assert(xorshift64_update(0) == 0) by (bit_vector);
}

/// One `xorshift64*` step: the state (two words) advances, and the draw is the
/// new state times 2685821657736338717 (wrapping).
pub fn step_xorshift64star(state: &mut [i32; 2]) -> (r: u64)
    ensures
        ({
            let x = xorshift64_update(spec_u64_from_pair(old(state)@[0], old(state)@[1]));
            &&& final(state)@ == seq![spec_pair_from_u64(x).0, spec_pair_from_u64(x).1]
            &&& r == x.wrapping_mul(2685821657736338717u64)
        }),
{
    let mut x = u64_from_pair(state[0], state[1]);
    x = x ^ (x >> 12);
    x = x ^ (x << 25);
    x = x ^ (x >> 27);
    let (lo, hi) = pair_from_u64(x);
    state[0] = lo;
    state[1] = hi;
    assert(state@ =~= seq![lo, hi]);
    x.wrapping_mul(2685821657736338717u64)
}

/// The new second word of `xorshift128+` from the old words `s0` (first) and `s1` (second).
pub open spec fn xorshift128_update(first: u64, second: u64) -> u64 {
    let a = first ^ (first << 23u64);
    a ^ second ^ (a >> 17u64) ^ (second >> 26u64)
}

/// The `xorshift128+` recurrence (Vigna): with `s0` the old first word and `s1`
/// the old second word, `t = s0 ^ (s0 << 23)`, the new word is
/// `t ^ s1 ^ (t >> 17) ^ (s1 >> 26)`. The update is linear over bits, the first
/// word entering only through the shifts by 23 and 17, the second only as
/// `s1 ^ (s1 >> 26)`.
pub proof fn law_xorshift128plus_recurrence(s0: u64, s1: u64, a0: u64, a1: u64)
    ensures
        xorshift128_update(s0, s1) == ({
            let t = s0 ^ (s0 << 23u64);
            t ^ s1 ^ (t >> 17u64) ^ (s1 >> 26u64)
        }),
        xorshift128_update(0, s1) == s1 ^ (s1 >> 26u64),
        xorshift128_update(s0, 0) == ({
            let t = s0 ^ (s0 << 23u64);
            t ^ (t >> 17u64)
        }),
        xorshift128_update(s0 ^ a0, s1 ^ a1) == xorshift128_update(s0, s1) ^ xorshift128_update(a0, a1),
{
    assert(xorshift128_update(0, s1) == s1 ^ (s1 >> 26u64)) by (bit_vector);
    assert(xorshift128_update(s0, 0) == (s0 ^ (s0 << 23u64)) ^ ((s0 ^ (s0 << 23u64)) >> 17u64)) by (bit_vector);
    assert(xorshift128_update(s0 ^ a0, s1 ^ a1) == xorshift128_update(s0, s1) ^ xorshift128_update(a0, a1)) by (bit_vector);
}

/// One `xorshift128+` step: the state moves its second word to the first slot and
/// stores the update in the second; the draw is the update plus the old second
/// word (wrapping).
pub fn step_xorshift128plus(state: &mut [i32; 4]) -> (r: u64)
    ensures
        ({
            let first = spec_u64_from_pair(old(state)@[0], old(state)@[1]);
            let second = spec_u64_from_pair(old(state)@[2], old(state)@[3]);
            let n = xorshift128_update(first, second);
            &&& final(state)@ == seq![
                spec_pair_from_u64(second).0,
                spec_pair_from_u64(second).1,
                spec_pair_from_u64(n).0,
                spec_pair_from_u64(n).1,
            ]
            &&& r == n.wrapping_add(second)
        }),
{
    let first = u64_from_pair(state[0], state[1]);
    let second = u64_from_pair(state[2], state[3]);
    let mut s1 = first;
    let s0 = second;
    s1 = s1 ^ (s1 << 23);
    let new_s1 = s1 ^ s0 ^ (s1 >> 17) ^ (s0 >> 26);
    let (a, b) = pair_from_u64(s0);
    state[0] = a;
    state[1] = b;
    let (c, d) = pair_from_u64(new_s1);
    state[2] = c;
    state[3] = d;
    assert(state@ =~= seq![a, b, c, d]);
    new_s1.wrapping_add(s0)
}

/// The 64-bit words of a `xorshift1024*` state (32 words of `i32`, pairs low first).
pub open spec fn words_1024(st: Seq<i32>) -> Seq<u64> {
    Seq::new(16, |i: int| spec_u64_from_pair(st[2 * i], st[2 * i + 1]))
}

/// The new word of `xorshift1024*` written at the next position, from the word
/// at the current position (`s0`) and the word at the next position (`s1`).
pub open spec fn xorshift1024_update(s0: u64, s1: u64) -> u64 {
    let a = s1 ^ (s1 << 31u64);
    let b = a ^ (a >> 11u64);
    let c = s0 ^ (s0 >> 30u64);
    c ^ b
}

/// The `xorshift1024*` recurrence (Vigna): with `s0` the word at the current
/// position and `s1` the word at the next, `t = s1 ^ (s1 << 31)`, the new word is
/// `s0 ^ (s0 >> 30) ^ t ^ (t >> 11)`; the current word enters only as
/// `s0 ^ (s0 >> 30)`, the next one only through the shifts by 31 and 11.
pub proof fn law_xorshift1024star_recurrence(s0: u64, s1: u64, a0: u64, a1: u64)
    ensures
        xorshift1024_update(s0, s1) == ({
            let t = s1 ^ (s1 << 31u64);
            s0 ^ (s0 >> 30u64) ^ t ^ (t >> 11u64)
        }),
        xorshift1024_update(s0, 0) == s0 ^ (s0 >> 30u64),
        xorshift1024_update(0, s1) == ({
            let t = s1 ^ (s1 << 31u64);
            t ^ (t >> 11u64)
        }),
        xorshift1024_update(s0 ^ a0, s1 ^ a1) == xorshift1024_update(s0, s1) ^ xorshift1024_update(a0, a1),
{
    assert(xorshift1024_update(s0, s1) == (s0 ^ (s0 >> 30u64)) ^ (s1 ^ (s1 << 31u64)) ^ ((s1 ^ (s1 << 31u64)) >> 11u64)) by (bit_vector);
    assert(xorshift1024_update(s0, 0) == s0 ^ (s0 >> 30u64)) by (bit_vector);
    assert(xorshift1024_update(0, s1) == (s1 ^ (s1 << 31u64)) ^ ((s1 ^ (s1 << 31u64)) >> 11u64)) by (bit_vector);
    assert(xorshift1024_update(s0 ^ a0, s1 ^ a1) == xorshift1024_update(s0, s1) ^ xorshift1024_update(a0, a1)) by (bit_vector);
}

/// One `xorshift1024*` step. The position `p = state[32] & 15` moves to
/// `q = (p + 1) & 15`; word `q` becomes the update of words `p` and `q`; the
/// other words are kept; the draw is the new word times 1181783497276652981
/// (wrapping).
pub fn step_xorshift1024star(state: &mut [i32; 33]) -> (r: u64)
    ensures
        ({
            let w = words_1024(old(state)@);
            let p = (old(state)@[32] & 15i32) as int;
            let q = (((old(state)@[32] & 15i32) + 1i32) as i32) & 15i32;
            let n = xorshift1024_update(w[p], w[q as int]);
            let w2 = w.update(q as int, n);
            &&& final(state)@[32] == q
            &&& forall|i: int| 0 <= i < 16 ==> #[trigger] final(state)@[2 * i] == spec_pair_from_u64(w2[i]).0
                && final(state)@[2 * i + 1] == spec_pair_from_u64(w2[i]).1
            &&& r == n.wrapping_mul(1181783497276652981u64)
        }),
{
    let ghost w = words_1024(state@);
    let mut s: [u64; 16] = [0u64; 16];
    let mut i: usize = 0;
    while i < 16
        invariant
            i <= 16,
            w == words_1024(state@),
            forall|j: int| 0 <= j < i ==> #[trigger] s@[j] == w[j],
        decreases 16 - i,
    {
        let v = u64_from_pair(state[2 * i], state[2 * i + 1]);
        s[i] = v;
        i += 1;
    }
    let st32: i32 = state[32];
    let pos: i32 = st32 & 15;
    assert(0 <= pos < 16) by (bit_vector)
        requires
            pos == st32 & 15i32,
    ;
    let p_old = pos as usize;
    let s0 = s[p_old];
    let p_new = (pos + 1) & 15;
    assert(0 <= p_new < 16) by (bit_vector)
        requires
            p_new == ((pos + 1i32) as i32) & 15i32,
            0 <= pos < 16,
    ;
    let q = p_new as usize;
    let s1 = s[q];
    let mut s1m = s1;
    let mut s0m = s0;
    s1m = s1m ^ (s1m << 31);
    s1m = s1m ^ (s1m >> 11);
    s0m = s0m ^ (s0m >> 30);
    let n = s0m ^ s1m;
    s[q] = n;
    let t = n.wrapping_mul(1181783497276652981u64);
    let ghost w2 = w.update(q as int, n);
    assert(forall|j: int| 0 <= j < 16 ==> #[trigger] s@[j] == w2[j]);
    state[32] = p_new;
    let mut k: usize = 0;
    while k < 16
        invariant
            k <= 16,
            state@[32] == p_new,
            w2.len() == 16,
            forall|j: int| 0 <= j < 16 ==> #[trigger] s@[j] == w2[j],
            forall|j: int| 0 <= j < k ==> #[trigger] state@[2 * j] == spec_pair_from_u64(w2[j]).0
                && state@[2 * j + 1] == spec_pair_from_u64(w2[j]).1,
        decreases 16 - k,
    {
        let (lo, hi) = pair_from_u64(s[k]);
        let ghost before = state@;
        state[2 * k] = lo;
        state[2 * k + 1] = hi;
        assert(state@ == before.update(2 * k as int, lo).update(2 * k + 1, hi));
        assert forall|j: int| 0 <= j < k + 1 implies #[trigger] state@[2 * j] == spec_pair_from_u64(w2[j]).0
            && state@[2 * j + 1] == spec_pair_from_u64(w2[j]).1 by {
            if j < k {
                assert(before[2 * j] == spec_pair_from_u64(w2[j]).0);
            }
        }
        k += 1;
    }
    t
}

} // verus!
