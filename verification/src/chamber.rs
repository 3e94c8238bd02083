//! The revolver cylinder: six chambers held as the low six bits of a byte.
use vstd::arithmetic::div_mod::{lemma_add_mod_noop, lemma_mod_multiples_vanish, lemma_mul_mod_noop_right};
use vstd::arithmetic::power2::{lemma2_to64, lemma2_to64_rest, lemma_pow2_unfold, pow2};
use vstd::prelude::*;

verus! {

/// Whether chamber `pos` holds a live round.
pub open spec fn chamber_bit(flags: u8, pos: u8) -> bool {
    (flags >> pos) & 1u8 == 1u8
}

/// The number of live rounds in `flags` (the number of set bits).
pub open spec fn bullet_count(flags: u8) -> int {
    (flags & 1u8) + ((flags >> 1u8) & 1u8) + ((flags >> 2u8) & 1u8) + ((flags >> 3u8) & 1u8)
        + ((flags >> 4u8) & 1u8) + ((flags >> 5u8) & 1u8) + ((flags >> 6u8) & 1u8) + ((flags
        >> 7u8) & 1u8)
}

/// Loading an empty chamber adds one round and keeps the cylinder within six chambers.
pub proof fn lemma_load_chamber(flags: u8, pos: u8)
    requires
        flags < 64,
        pos < 6,
        !chamber_bit(flags, pos),
    ensures
        (flags | (1u8 << pos)) < 64,
        bullet_count(flags | (1u8 << pos)) == bullet_count(flags) + 1,
        chamber_bit(flags | (1u8 << pos), pos),
{
    assert((flags | (1u8 << pos)) < 64) by (bit_vector)
        requires
            flags < 64,
            pos < 6,
    ;
    assert(bullet_count(flags | (1u8 << pos)) == bullet_count(flags) + 1) by (bit_vector)
        requires
            flags < 64,
            pos < 6,
            (flags >> pos) & 1u8 != 1u8,
    ;
    assert(((flags | (1u8 << pos)) >> pos) & 1u8 == 1u8) by (bit_vector)
        requires
            pos < 6,
    ;
}

/// Firing a live chamber removes exactly that round.
pub proof fn lemma_fire_chamber(flags: u8, pos: u8)
    requires
        flags < 64,
        pos < 6,
        chamber_bit(flags, pos),
    ensures
        (flags & !(1u8 << pos)) < 64,
        bullet_count(flags & !(1u8 << pos)) + 1 == bullet_count(flags),
        !chamber_bit(flags & !(1u8 << pos), pos),
{
    assert((flags & !(1u8 << pos)) < 64) by (bit_vector)
        requires
            flags < 64,
    ;
    assert(bullet_count(flags & !(1u8 << pos)) + 1 == bullet_count(flags)) by (bit_vector)
        requires
            flags < 64,
            pos < 6,
            (flags >> pos) & 1u8 == 1u8,
    ;
    assert(((flags & !(1u8 << pos)) >> pos) & 1u8 != 1u8) by (bit_vector)
        requires
            pos < 6,
    ;
}

/// A chamber is either loaded or empty, and the masked test agrees with the shifted one.
pub proof fn lemma_chamber_test(flags: u8, pos: u8)
    requires
        pos < 8,
    ensures
        ((flags >> pos) & 1u8 == 0u8) == !chamber_bit(flags, pos),
        ((flags & (1u8 << pos)) == 0u8) == !chamber_bit(flags, pos),
{
    assert(((flags >> pos) & 1u8 == 0u8) == !((flags >> pos) & 1u8 == 1u8)) by (bit_vector);
    assert(((flags & (1u8 << pos)) == 0u8) == !((flags >> pos) & 1u8 == 1u8)) by (bit_vector)
        requires
            pos < 8,
    ;
}

/// Six chambers hold at most six rounds, and a loaded chamber means at least one.
pub proof fn lemma_bullet_count_bounds(flags: u8, pos: u8)
    requires
        flags < 64,
        pos < 6,
    ensures
        0 <= bullet_count(flags) <= 6,
        chamber_bit(flags, pos) ==> bullet_count(flags) >= 1,
        bullet_count(flags) == 0 <==> flags == 0,
{
    assert(0 <= bullet_count(flags) <= 6) by (bit_vector)
        requires
            flags < 64,
    ;
    assert(((flags >> pos) & 1u8 == 1u8) ==> bullet_count(flags) >= 1) by (bit_vector);
    assert((bullet_count(flags) == 0) == (flags == 0)) by (bit_vector);
}

/// Multiplier of the generator that picks chambers.
pub const LCG_MULTIPLIER: u64 = 1103515245;

/// Increment of the generator that picks chambers.
pub const LCG_INCREMENT: u64 = 12345;

/// One step of the linear congruential generator, modulo 2^64.
#[verifier::opaque]
pub open spec fn lcg_step(x: u64) -> u64 {
    x.wrapping_mul(LCG_MULTIPLIER).wrapping_add(LCG_INCREMENT)
}

/// Loading rounds from generator state `rng`: each draw names chamber `rng % 6`
/// and loads it if it is empty, until three rounds are in or `fuel` draws are spent.
/// Returns the cylinder and the number of rounds in it.
pub open spec fn load_rounds(rng: u64, flags: u8, count: u8, fuel: nat) -> (u8, u8)
    decreases fuel,
{
    if count >= 3 || fuel == 0 {
        (flags, count)
    } else {
        let pos = (rng % 6) as u8;
        let next = lcg_step(rng);
        if flags & (1u8 << pos) == 0 {
            load_rounds(next, flags | (1u8 << pos), (count + 1) as u8, (fuel - 1) as nat)
        } else {
            load_rounds(next, flags, count, (fuel - 1) as nat)
        }
    }
}

/// The cylinder a round starts with, seeded by `entropy`, and its round count.
/// The generator is given 2^64 - 1 draws; three distinct chambers come up well
/// within them (`lemma_loaded_chamber`).
pub open spec fn loaded_chamber(entropy: u64) -> (u8, u8) {
    load_rounds(entropy, 0, 0, u64::MAX as nat)
}

/// Loads three rounds into distinct chambers, picked by the generator seeded with `entropy`.
pub fn load_chamber(entropy: u64) -> (flags: u8)
    ensures
        flags == loaded_chamber(entropy).0,
        flags < 64,
        bullet_count(flags) == 3,
        loaded_chamber(entropy).1 == 3,
{
    let mut flags: u8 = 0;
    let mut rng: u64 = entropy;
    let mut count: u8 = 0;
    let mut fuel: u64 = u64::MAX;
    proof {
        assert(bullet_count(0u8) == 0) by (bit_vector);
    }
    while count < 3 && fuel > 0
        invariant
            load_rounds(rng, flags, count, fuel as nat) == loaded_chamber(entropy),
            flags < 64,
            bullet_count(flags) == count,
            count <= 3,
        decreases fuel,
    {
        let pos: u8 = (rng % 6) as u8;
        proof {
            lemma_chamber_test(flags, pos);
        }
        if flags & (1u8 << pos) == 0 {
            proof {
                lemma_load_chamber(flags, pos);
            }
            flags = flags | (1u8 << pos);
            count = count + 1;
        }
        proof {
            reveal(lcg_step);
        }
        rng = rng.wrapping_mul(LCG_MULTIPLIER).wrapping_add(LCG_INCREMENT);
        fuel = fuel - 1;
    }
    proof {
        lemma_loaded_chamber(entropy);
    }
    flags
}

/// The generator's state after `n` draws starting from `x`.
pub open spec fn lcg_iter(x: u64, n: nat) -> u64
    decreases n,
{
    if n == 0 {
        x
    } else {
        lcg_iter(lcg_step(x), (n - 1) as nat)
    }
}

/// The number of generator states, 2^64.
pub open spec fn lcg_modulus() -> int {
    0x10000000000000000
}

/// One step of the generator is `x * a + c` taken modulo 2^64.
proof fn lemma_lcg_step_value(x: u64)
    ensures
        lcg_step(x) as int == (x as int * LCG_MULTIPLIER as int + LCG_INCREMENT as int) % lcg_modulus(),
{
    reveal(lcg_step);
    let m = lcg_modulus();
    let y = (x as int * LCG_MULTIPLIER as int) % m;
    assert(x.wrapping_mul(LCG_MULTIPLIER) as int == y);
    lemma_add_mod_noop(x as int * LCG_MULTIPLIER as int, LCG_INCREMENT as int, m);
    assert((LCG_INCREMENT as int) % m == LCG_INCREMENT as int);
    assert(y % m == y);
}

/// Drawing `m` and then `n` times is drawing `m + n` times.
proof fn lemma_lcg_iter_adds(x: u64, m: nat, n: nat)
    ensures
        lcg_iter(x, m + n) == lcg_iter(lcg_iter(x, m), n),
    decreases m,
{
    if m > 0 {
        lemma_lcg_iter_adds(lcg_step(x), (m - 1) as nat, n);
        assert((m + n - 1) as nat == (m - 1) as nat + n);
    }
}

/// The coefficients of `2^j` steps of the generator, before reduction:
/// `2^j` draws take `x` to `a * x + c` modulo 2^64.
pub open spec fn doubled_step(j: nat) -> (int, int)
    decreases j,
{
    if j == 0 {
        (LCG_MULTIPLIER as int, LCG_INCREMENT as int)
    } else {
        let (a, c) = doubled_step((j - 1) as nat);
        (a * a, a * c + c)
    }
}

/// After `2^j` steps the multiplier is one more than a multiple of `2^(j+2)`
/// and the increment is `2^j` times an odd number.
proof fn lemma_doubled_step_shape(j: nat) -> (km: (int, int))
    ensures
        doubled_step(j).0 == 1 + pow2(j + 2) * km.0,
        doubled_step(j).1 == pow2(j) * (2 * km.1 + 1),
    decreases j,
{
    lemma2_to64();
    if j == 0 {
        assert(pow2(2) == 4);
        assert(pow2(0) == 1);
        (275878811, 6172)
    } else {
        let (k, m) = lemma_doubled_step_shape((j - 1) as nat);
        let (a, c) = doubled_step((j - 1) as nat);
        let q = pow2((j - 1) as nat) as int;
        lemma_pow2_unfold(j);
        lemma_pow2_unfold(j + 1);
        lemma_pow2_unfold(j + 2);
        let pj = pow2(j) as int;
        assert(pj == 2 * q);
        assert(pow2(j + 1) == 4 * q);
        assert(pow2(j + 2) == 8 * q);
        assert(a == 1 + 4 * q * k);
        assert(c == q * (2 * m + 1));
        let k2 = k + 2 * q * k * k;
        let m2 = 2 * m * q * k + m + q * k;
        assert(a * a == 1 + (8 * q) * k2) by (nonlinear_arith)
            requires
                a == 1 + 4 * q * k,
                k2 == k + 2 * q * k * k,
        ;
        assert(a * c + c == (2 * q) * (2 * m2 + 1)) by (nonlinear_arith)
            requires
                a == 1 + 4 * q * k,
                c == q * (2 * m + 1),
                m2 == 2 * m * q * k + m + q * k,
        ;
        (k2, m2)
    }
}

/// Applying `x -> a * x + c` modulo `md` twice is applying `x -> a*a * x + (a*c + c)` modulo `md`.
proof fn lemma_affine_twice(a: int, c: int, x: int, md: int)
    requires
        md > 0,
    ensures
        (a * ((a * x + c) % md) + c) % md == ((a * a) * x + (a * c + c)) % md,
{
    let t = a * x + c;
    lemma_mul_mod_noop_right(a, t, md);
    lemma_add_mod_noop(a * (t % md), c, md);
    lemma_add_mod_noop(a * t, c, md);
    assert(a * t + c == (a * a) * x + (a * c + c)) by (nonlinear_arith)
        requires
            t == a * x + c,
    ;
}

/// One draw, `2^0` of them.
proof fn lemma_lcg_iter_once(x: u64)
    ensures
        lcg_iter(x, pow2(0)) as int == (doubled_step(0).0 * x as int + doubled_step(0).1) % lcg_modulus(),
{
    lemma2_to64();
    assert(lcg_iter(lcg_step(x), 0) == lcg_step(x));
    assert(lcg_iter(x, 1) == lcg_step(x));
    lemma_lcg_step_value(x);
    assert(doubled_step(0).0 * x as int == x as int * LCG_MULTIPLIER as int);
}

/// `2^j` draws take `x` to `a * x + c` modulo 2^64, with `(a, c) = doubled_step(j)`.
proof fn lemma_lcg_iter_doubled(x: u64, j: nat)
    ensures
        lcg_iter(x, pow2(j)) as int == (doubled_step(j).0 * x as int + doubled_step(j).1) % lcg_modulus(),
    decreases j,
{
    if j == 0 {
        lemma_lcg_iter_once(x);
    } else {
        let h = pow2((j - 1) as nat);
        lemma_pow2_unfold(j);
        assert(pow2(j) == h + h);
        lemma_lcg_iter_adds(x, h, h);
        let y = lcg_iter(x, h);
        let z = lcg_iter(y, h);
        assert(lcg_iter(x, pow2(j)) == z);
        let a = doubled_step((j - 1) as nat).0;
        let c = doubled_step((j - 1) as nat).1;
        let md = lcg_modulus();
        lemma_lcg_iter_doubled(x, (j - 1) as nat);
        assert(y as int == (a * x as int + c) % md);
        lemma_lcg_iter_doubled(y, (j - 1) as nat);
        assert(z as int == (a * y as int + c) % md);
        lemma_affine_twice(a, c, x as int, md);
        assert(doubled_step(j).0 == a * a);
        assert(doubled_step(j).1 == a * c + c);
    }
}

/// Half the generator's period on: `2^63` draws add `2^63` modulo 2^64,
/// flipping only the top bit.
proof fn lemma_lcg_half_period(x: u64)
    ensures
        lcg_iter(x, pow2(63)) as int == (x as int + 0x8000000000000000) % lcg_modulus(),
{
    lemma2_to64();
    lemma2_to64_rest();
    lemma_lcg_iter_doubled(x, 63);
    let (k, m) = lemma_doubled_step_shape(63);
    lemma_pow2_unfold(65);
    let (a, c) = doubled_step(63);
    let md = lcg_modulus();
    assert(pow2(65) == 2 * md);
    assert(pow2(63) == 0x8000000000000000);
    let q = 2 * k * x as int + m;
    assert(a * x as int + c == md * q + (x as int + 0x8000000000000000)) by (nonlinear_arith)
        requires
            a == 1 + (2 * md) * k,
            c == 0x8000000000000000 * (2 * m + 1),
            md == 0x10000000000000000,
            q == 2 * k * x as int + m,
    ;
    lemma_mod_multiples_vanish(q, x as int + 0x8000000000000000, md);
}

/// Three distinct loaded chambers make at least three rounds.
proof fn lemma_three_chambers(flags: u8, p0: u8, p1: u8, p2: u8)
    requires
        p0 < 6,
        p1 < 6,
        p2 < 6,
        p0 != p1,
        p0 != p2,
        p1 != p2,
        chamber_bit(flags, p0),
        chamber_bit(flags, p1),
        chamber_bit(flags, p2),
    ensures
        bullet_count(flags) >= 3,
{
    assert(bullet_count(flags) >= 3) by (bit_vector)
        requires
            p0 < 6,
            p1 < 6,
            p2 < 6,
            p0 != p1,
            p0 != p2,
            p1 != p2,
            (flags >> p0) & 1u8 == 1u8,
            (flags >> p1) & 1u8 == 1u8,
            (flags >> p2) & 1u8 == 1u8,
    ;
}

/// What loading keeps: the cylinder stays within six chambers with at most
/// three rounds counted exactly, loaded chambers stay loaded, and every
/// chamber drawn is loaded unless three rounds were in first.
proof fn lemma_load_rounds(rng: u64, flags: u8, count: u8, fuel: nat)
    requires
        flags < 64,
        count == bullet_count(flags),
        count <= 3,
    ensures
        load_rounds(rng, flags, count, fuel).0 < 64,
        load_rounds(rng, flags, count, fuel).1 == bullet_count(load_rounds(rng, flags, count, fuel).0),
        load_rounds(rng, flags, count, fuel).1 <= 3,
        forall|p: u8| p < 6 && chamber_bit(flags, p) ==> chamber_bit(load_rounds(rng, flags, count, fuel).0, p),
        forall|n: nat|
            n < fuel ==> load_rounds(rng, flags, count, fuel).1 == 3 || chamber_bit(
                load_rounds(rng, flags, count, fuel).0,
                (#[trigger] lcg_iter(rng, n) % 6) as u8,
            ),
    decreases fuel,
{
    if count >= 3 || fuel == 0 {
    } else {
        let pos = (rng % 6) as u8;
        let next = lcg_step(rng);
        lemma_chamber_test(flags, pos);
        let (f2, c2) = if flags & (1u8 << pos) == 0 {
            lemma_load_chamber(flags, pos);
            (flags | (1u8 << pos), (count + 1) as u8)
        } else {
            (flags, count)
        };
        assert(chamber_bit(f2, pos));
        assert forall|p: u8| p < 6 && chamber_bit(flags, p) implies chamber_bit(f2, p) by {
            assert(((flags >> p) & 1u8 == 1u8) ==> (((flags | (1u8 << pos)) >> p) & 1u8 == 1u8)) by (bit_vector)
                requires
                    p < 6,
                    pos < 6,
            ;
        }
        lemma_load_rounds(next, f2, c2, (fuel - 1) as nat);
        let r = load_rounds(rng, flags, count, fuel);
        assert(r == load_rounds(next, f2, c2, (fuel - 1) as nat));
        assert forall|n: nat| n < fuel implies r.1 == 3 || chamber_bit(r.0, (#[trigger] lcg_iter(rng, n) % 6) as u8) by {
            if n == 0 {
                assert(lcg_iter(rng, 0) == rng);
            } else {
                assert(lcg_iter(rng, n) == lcg_iter(next, (n - 1) as nat));
            }
        }
    }
}

/// One draw flips the generator's parity: the multiplier and increment are odd.
proof fn lemma_step_flips_parity(x: u64)
    ensures
        (lcg_step(x) as int) % 2 != (x as int) % 2,
{
    lemma_lcg_step_value(x);
    let t = x as int * 1103515245 + 12345;
    assert(t % 2 != (x as int) % 2);
    assert((t % 0x10000000000000000) % 2 == t % 2);
}

/// Adding `2^63` modulo `2^64` keeps parity and changes the remainder modulo three.
proof fn lemma_top_bit_flip(w: int, y: int)
    requires
        0 <= w < 0x10000000000000000,
        y == (w + 0x8000000000000000) % 0x10000000000000000,
    ensures
        y % 2 == w % 2,
        y % 3 != w % 3,
{
    if w < 0x8000000000000000 {
        assert(y == w + 0x8000000000000000);
    } else {
        assert(y == w - 0x8000000000000000);
    }
}

/// `2^63` draws on, the state has the same parity and another remainder modulo three.
proof fn lemma_half_period_residues(x: u64)
    ensures
        (lcg_iter(x, pow2(63)) as int) % 2 == (x as int) % 2,
        (lcg_iter(x, pow2(63)) as int) % 3 != (x as int) % 3,
{
    lemma_lcg_half_period(x);
    let y = lcg_iter(x, pow2(63)) as int;
    let w = x as int;
    assert(y == (w + 0x8000000000000000) % 0x10000000000000000);
    lemma_top_bit_flip(w, y);
}

/// Every round starts with exactly three rounds in the cylinder: the first two
/// draws name chambers of different parity, and the draw `2^63` steps on names
/// a chamber of the first one's parity but another remainder modulo three, so
/// three distinct chambers are drawn well within the draws allowed.
pub proof fn lemma_loaded_chamber(entropy: u64)
    ensures
        loaded_chamber(entropy).0 < 64,
        loaded_chamber(entropy).1 == 3,
        bullet_count(loaded_chamber(entropy).0) == 3,
{
    assert(bullet_count(0u8) == 0) by (bit_vector);
    lemma_load_rounds(entropy, 0, 0, u64::MAX as nat);
    let r = loaded_chamber(entropy);
    let d = pow2(63);
    lemma2_to64_rest();
    assert(d < u64::MAX as nat);
    let x0 = entropy;
    let x1 = lcg_iter(entropy, 1);
    let x2 = lcg_iter(entropy, d);
    assert(lcg_iter(entropy, 0) == x0);
    assert(lcg_iter(lcg_step(entropy), 0) == lcg_step(entropy));
    assert(x1 == lcg_step(entropy));
    lemma_step_flips_parity(entropy);
    lemma_half_period_residues(entropy);
    let p0 = (x0 % 6) as u8;
    let p1 = (x1 % 6) as u8;
    let p2 = (x2 % 6) as u8;
    assert(p0 != p1 && p0 != p2 && p1 != p2);
    if r.1 != 3 {
        assert(chamber_bit(r.0, p0));
        assert(chamber_bit(r.0, p1));
        assert(chamber_bit(r.0, p2));
        lemma_three_chambers(r.0, p0, p1, p2);
    }
}

} // verus!
