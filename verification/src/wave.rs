//! The sine wave and the equal-tempered scale, in fixed point.
//!
//! A phase is a fraction `num / den` of one turn. The wave is Bhaskara's
//! rational approximation of the sine: on the first half turn, with
//! `t` the fraction of the half turn that has passed,
//! `16 t (1 - t) / (5 - 4 t (1 - t))`; the second half turn mirrors the
//! first below zero. It is within two thousandths of the true sine.

use vstd::prelude::*;
use crate::fixed::{Fixed, LIMIT, ONE};

verus! {

/// The largest denominator of a phase: the largest sample rate times `ONE`.
pub const MAX_PERIOD: i64 = 4_294_967_295_000_000;

/// How far into its half turn the phase `num / den` is, in units of `1 / den`
/// of a half turn.
pub open spec fn half_turn_offset(num: int, den: int) -> int {
    if 2 * num < den {
        2 * num
    } else {
        2 * num - den
    }
}

/// The height of the arch over a half turn at offset `q` of `den`.
pub open spec fn arch(q: int, den: int) -> int {
    let u = q * (den - q);
    16 * u * (ONE as int) / (5 * (den * den) - 4 * u)
}

/// The wave at phase `num / den` of a turn, for `0 <= num < den`.
pub open spec fn sine_wave(num: int, den: int) -> int {
    if 2 * num < den {
        arch(half_turn_offset(num, den), den)
    } else {
        -arch(half_turn_offset(num, den), den)
    }
}

/// The frequency of each of the twelve lowest notes, C to B.
pub open spec fn semitone(step: int) -> int {
    if step == 0 {
        8_175_799
    } else if step == 1 {
        8_661_957
    } else if step == 2 {
        9_177_024
    } else if step == 3 {
        9_722_718
    } else if step == 4 {
        10_300_861
    } else if step == 5 {
        10_913_382
    } else if step == 6 {
        11_562_326
    } else if step == 7 {
        12_249_857
    } else if step == 8 {
        12_978_272
    } else if step == 9 {
        13_750_000
    } else if step == 10 {
        14_567_618
    } else {
        15_433_853
    }
}

/// `x` doubled `times` times.
pub open spec fn doubled(x: int, times: nat) -> int
    decreases times,
{
    if times == 0 {
        x
    } else {
        2 * doubled(x, (times - 1) as nat)
    }
}

/// The frequency of a note: its place in the lowest octave, doubled once
/// for each octave above it. Note 69 sounds at 440.
pub open spec fn note_frequency(note: int) -> int {
    doubled(semitone(note % 12), (note / 12) as nat)
}

/// The amplitude that a velocity stands for: 127 is full scale.
pub open spec fn velocity_amplitude(velocity: int) -> int {
    velocity * (ONE as int) / 127
}

/// The arch is never negative and never higher than one.
pub proof fn lemma_arch_bounds(q: int, den: int)
    requires
        0 <= q < den,
    ensures
        0 <= q * (den - q),
        4 * (q * (den - q)) <= den * den,
        5 * (den * den) - 4 * (q * (den - q)) > 0,
        0 <= arch(q, den) <= ONE,
{
    let u = q * (den - q);
    let d = 5 * (den * den) - 4 * u;
    assert(0 <= u) by (nonlinear_arith)
        requires
            0 <= q < den,
            u == q * (den - q),
    ;
    assert(4 * u <= den * den) by (nonlinear_arith)
        requires
            u == q * (den - q),
    ;
    assert(den * den > 0) by (nonlinear_arith)
        requires
            den > 0,
    ;
    assert(d > 0);
    assert(16 * u * (ONE as int) <= (ONE as int) * d);
    assert(16 * u * (ONE as int) >= 0);
    vstd::arithmetic::div_mod::lemma_div_is_ordered(0, 16 * u * (ONE as int), d);
    vstd::arithmetic::div_mod::lemma_div_is_ordered(16 * u * (ONE as int), (ONE as int) * d, d);
    vstd::arithmetic::div_mod::lemma_div_multiples_vanish(ONE as int, d);
    assert((ONE as int) * d == d * (ONE as int)) by (nonlinear_arith);
    assert(0int / d == 0) by {
        vstd::arithmetic::div_mod::lemma_div_of0(d);
    }
}

/// The wave stays between minus one and one.
pub proof fn lemma_sine_wave_bounds(num: int, den: int)
    requires
        0 <= num < den,
    ensures
        -ONE <= sine_wave(num, den) <= ONE,
{
    lemma_arch_bounds(half_turn_offset(num, den), den);
}

/// The wave starts at zero, and half a turn further on it has changed its
/// sign and nothing else.
pub proof fn lemma_sine_wave_symmetry(num: int, den: int)
    requires
        0 <= num,
        2 * num < den,
        den % 2 == 0,
    ensures
        sine_wave(0, den) == 0,
        sine_wave(num + den / 2, den) == -sine_wave(num, den),
{
    assert(0 * (den - 0) == 0) by (nonlinear_arith);
    assert(16 * 0 * (ONE as int) == 0);
    assert(5 * (den * den) - 4 * 0 > 0) by (nonlinear_arith)
        requires
            den > 0,
    ;
    vstd::arithmetic::div_mod::lemma_div_of0(5 * (den * den) - 4 * 0);
    assert(arch(0, den) == 0);
}

/// A quarter of a turn in, the wave is exactly one.
pub proof fn lemma_sine_wave_peak(quarter: int)
    requires
        quarter > 0,
    ensures
        sine_wave(quarter, 4 * quarter) == ONE,
{
    let den = 4 * quarter;
    let q = 2 * quarter;
    let u = q * (den - q);
    assert(u == 4 * (quarter * quarter)) by (nonlinear_arith)
        requires
            u == q * (den - q),
            q == 2 * quarter,
            den == 4 * quarter,
    ;
    assert(den * den == 16 * (quarter * quarter)) by (nonlinear_arith)
        requires
            den == 4 * quarter,
    ;
    let d = 5 * (den * den) - 4 * u;
    assert(quarter * quarter > 0) by (nonlinear_arith)
        requires
            quarter > 0,
    ;
    assert(d == 64 * (quarter * quarter));
    assert(16 * u * (ONE as int) == (ONE as int) * d);
    vstd::arithmetic::div_mod::lemma_div_multiples_vanish(ONE as int, d);
    assert((ONE as int) * d == d * (ONE as int)) by (nonlinear_arith);
}

/// An octave up, the frequency has doubled.
pub proof fn lemma_octave_doubles(note: int)
    requires
        0 <= note,
    ensures
        note_frequency(note + 12) == 2 * note_frequency(note),
        note_frequency(69) == 440 * ONE,
{
    assert((note + 12) % 12 == note % 12 && (note + 12) / 12 == note / 12 + 1) by {
        vstd::arithmetic::div_mod::lemma_fundamental_div_mod(note, 12);
        vstd::arithmetic::div_mod::lemma_fundamental_div_mod_converse(
            note + 12,
            12,
            note / 12 + 1,
            note % 12,
        );
    }
    assert(note / 12 >= 0);
    reveal_with_fuel(doubled, 6);
}

/// Doubling keeps a non-negative number non-negative and is monotone in the
/// number of times.
pub proof fn lemma_doubled_bounds(x: int, times: nat)
    requires
        0 <= x <= 16_000_000,
        times <= 21,
    ensures
        0 <= doubled(x, times) <= 33_554_432_000_000,
{
    reveal_with_fuel(doubled, 22);
}

/// The frequency of every note is more than zero and within range.
pub proof fn lemma_note_frequency_bounds(note: u8)
    ensures
        0 < note_frequency(note as int) <= LIMIT,
{
    lemma_doubled_bounds(semitone(note as int % 12), (note as int / 12) as nat);
    lemma_doubled_positive(semitone(note as int % 12), (note as int / 12) as nat);
}

/// The amplitude of every velocity is between zero and a little over two.
pub proof fn lemma_velocity_amplitude_bounds(velocity: u8)
    ensures
        0 <= velocity_amplitude(velocity as int) <= 2_007_875,
{
}

/// The wave at phase `num / den`.
pub fn sine(num: i64, den: i64) -> (r: Fixed)
    requires
        0 <= num < den <= MAX_PERIOD,
    ensures
        r == sine_wave(num as int, den as int),
        -ONE <= r <= ONE,
{
    let n: i128 = num as i128;
    let d: i128 = den as i128;
    let rising: bool = 2 * n < d;
    let q: i128 = if rising {
        2 * n
    } else {
        2 * n - d
    };
    proof {
        lemma_arch_bounds(q as int, d as int);
        assert(d * d <= 4_294_967_295_000_000 * 4_294_967_295_000_000) by (nonlinear_arith)
            requires
                0 < d <= 4_294_967_295_000_000,
        ;
        assert(q * (d - q) <= d * d) by (nonlinear_arith)
            requires
                0 <= q < d,
        ;
    }
    let u: i128 = q * (d - q);
    let dd: i128 = d * d;
    let top: i128 = 16 * u * (ONE as i128);
    let bottom: i128 = 5 * dd - 4 * u;
    let height: i128 = top / bottom;
    if rising {
        height as i64
    } else {
        -(height as i64)
    }
}

/// The frequency of a note.
pub fn frequency_of_note(note: u8) -> (r: Fixed)
    ensures
        r == note_frequency(note as int),
        0 < r <= LIMIT,
{
    let step: u8 = note % 12;
    let octave: u8 = note / 12;
    let base: i64 = if step == 0 {
        8_175_799
    } else if step == 1 {
        8_661_957
    } else if step == 2 {
        9_177_024
    } else if step == 3 {
        9_722_718
    } else if step == 4 {
        10_300_861
    } else if step == 5 {
        10_913_382
    } else if step == 6 {
        11_562_326
    } else if step == 7 {
        12_249_857
    } else if step == 8 {
        12_978_272
    } else if step == 9 {
        13_750_000
    } else if step == 10 {
        14_567_618
    } else {
        15_433_853
    };
    let mut freq: i64 = base;
    let mut i: u8 = 0;
    while i < octave
        invariant
            i <= octave <= 21,
            0 < base <= 16_000_000,
            base == semitone(step as int),
            freq == doubled(base as int, i as nat),
        decreases octave - i,
    {
        proof {
            lemma_doubled_bounds(base as int, i as nat);
            lemma_doubled_bounds(base as int, (i + 1) as nat);
        }
        freq = 2 * freq;
        i = i + 1;
    }
    proof {
        lemma_doubled_bounds(base as int, octave as nat);
        lemma_doubled_positive(base as int, octave as nat);
    }
    freq
}

/// Doubling a positive number leaves it positive.
pub proof fn lemma_doubled_positive(x: int, times: nat)
    requires
        0 < x,
    ensures
        0 < doubled(x, times),
    decreases times,
{
    if times > 0 {
        lemma_doubled_positive(x, (times - 1) as nat);
    }
}

/// The amplitude that a velocity stands for.
pub fn amplitude_of_velocity(velocity: u8) -> (r: Fixed)
    ensures
        r == velocity_amplitude(velocity as int),
        0 <= r <= 2_007_875,
{
    let v: i64 = velocity as i64;
    v * ONE / 127
}

} // verus!
