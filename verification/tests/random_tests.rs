use rustmodlica::intrinsics::{msl_random_status, real_fft_status};
use rustmodlica::random::{pair_from_u64, step_xorshift1024star, step_xorshift128plus, step_xorshift64star, u64_from_pair};

const INVM64: f64 = 5.42101086242752217004e-20;

fn to_unit(x: u64) -> f64 {
    (x as i64 as f64) * INVM64 + 0.5
}

#[test]
fn xorshift_generators_advance_and_stay_in_range() {
    let mut s64: [i32; 2] = [123, 456];
    let mut s64b = s64;
    let a = to_unit(step_xorshift64star(&mut s64));
    let b = to_unit(step_xorshift64star(&mut s64));
    assert!((0.0..1.0).contains(&a) && (0.0..1.0).contains(&b));
    assert_ne!(a, b, "state must advance between draws");
    assert_eq!(a, to_unit(step_xorshift64star(&mut s64b)), "must be deterministic");

    let mut s128: [i32; 4] = [1, 2, 3, 4];
    let c = to_unit(step_xorshift128plus(&mut s128));
    let d = to_unit(step_xorshift128plus(&mut s128));
    assert!((0.0..1.0).contains(&c) && (0.0..1.0).contains(&d));
    assert_ne!(c, d, "state must advance between draws");
}

#[test]
fn words_and_pairs_round_trip() {
    let x: u64 = 0x0123_4567_89ab_cdef;
    let (lo, hi) = pair_from_u64(x);
    assert_eq!(u64_from_pair(lo, hi), x);
    assert_eq!(u64_from_pair(-1, 0), 0xffff_ffff);
    assert_eq!(u64_from_pair(0, 1), 1u64 << 32);
}

#[test]
fn xorshift64star_first_step_exact() {
    let mut s: [i32; 2] = [123, 456];
    let mut x: u64 = (456u64 << 32) | 123;
    x ^= x >> 12;
    x ^= x << 25;
    x ^= x >> 27;
    let r = step_xorshift64star(&mut s);
    assert_eq!(r, x.wrapping_mul(2685821657736338717u64));
    assert_eq!(u64_from_pair(s[0], s[1]), x);
}

#[test]
fn xorshift128plus_moves_second_word_first() {
    let mut s: [i32; 4] = [1, 2, 3, 4];
    let _ = step_xorshift128plus(&mut s);
    assert_eq!(s[0], 3);
    assert_eq!(s[1], 4);
}

#[test]
fn xorshift1024star_advances_position() {
    let mut s = [0i32; 33];
    for (k, w) in s.iter_mut().enumerate().take(32) {
        *w = k as i32 + 1;
    }
    s[32] = 0;
    let _ = step_xorshift1024star(&mut s);
    assert_eq!(s[32] & 15, 1);
    assert_eq!((s[0], s[1]), (1, 2));
}

#[test]
fn random_status_codes() {
    assert_eq!(msl_random_status(0, 2), 0);
    assert_eq!(msl_random_status(1, 4), 0);
    assert_eq!(msl_random_status(2, 33), 0);
    assert_eq!(msl_random_status(0, 3), -2);
    assert_eq!(msl_random_status(0, 0), -2);
    assert_eq!(msl_random_status(7, 2), -3);
    assert_eq!(msl_random_status(7, -1), -2);
}

#[test]
fn fft_status_codes() {
    assert_eq!(real_fft_status(8, 5, 5, 5, true), 0);
    assert_eq!(real_fft_status(7, 2, 2, 2, false), 1);
    assert_eq!(real_fft_status(8, 6, 6, 6, false), 3);
    assert_eq!(real_fft_status(8, 0, 6, 6, false), 3);
    assert_eq!(real_fft_status(8, 4, 3, 4, false), 3);
    assert_eq!(real_fft_status(8, 4, 4, 3, true), 3);
    assert_eq!(real_fft_status(8, 4, 4, 3, false), 0);
}
