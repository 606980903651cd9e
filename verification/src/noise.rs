//! The 96×96 RGBA noise texture that the clock shader samples.
//!
//! Each texel is derived from a 32-bit avalanche hash of its coordinates. The
//! hash is mapped to a byte through single-precision arithmetic
//! (`hash as f32 / u32::MAX as f32 * 255.0`, truncated); this module computes
//! that byte exactly with integers, so the texture equals, byte for byte, the
//! one that the float expression gives.

use vstd::prelude::*;
use vstd::arithmetic::div_mod::*;
use vstd::arithmetic::mul::*;
use vstd::arithmetic::power2::*;

verus! {

/// Spacing between neighbouring single-precision values near the natural `n`:
/// 1 below 2^24, doubling with every further binary digit.
pub open spec fn f32_spacing(n: nat) -> nat
    decreases n,
{
    if n < 0x100_0000 {
        1
    } else {
        2 * f32_spacing(n / 2)
    }
}

/// `n` rounded to the nearest value that an `f32` can hold, ties to the
/// value with an even significand (the rounding of `as f32`).
pub open spec fn round_to_single(n: nat) -> nat {
    let p = f32_spacing(n);
    let q = n / p;
    let r = n % p;
    if 2 * r > p || (2 * r == p && q % 2 == 1) {
        (q + 1) * p
    } else {
        q * p
    }
}

proof fn lemma_spacing_positive(n: nat)
    ensures
        f32_spacing(n) >= 1,
    decreases n,
{
    if n >= 0x100_0000 {
        lemma_spacing_positive(n / 2);
    }
}

/// Below `2^24 * 2^j` the spacing divides `2^j`; the quotient is returned.
proof fn lemma_spacing_divides(n: nat, j: nat) -> (q: nat)
    requires
        n < 0x100_0000 * pow2(j),
    ensures
        f32_spacing(n) * q == pow2(j),
    decreases j,
{
    if n < 0x100_0000 {
        assert(f32_spacing(n) == 1);
        assert(1 * pow2(j) == pow2(j));
        pow2(j)
    } else {
        if j == 0 {
            lemma2_to64();
        }
        lemma_pow2_unfold(j);
        let p = pow2((j - 1) as nat);
        assert(n / 2 < 0x100_0000 * p);
        let q = lemma_spacing_divides(n / 2, (j - 1) as nat);
        let s = f32_spacing(n / 2);
        assert(f32_spacing(n) == 2 * s);
        assert((2 * s) * q == 2 * (s * q)) by (nonlinear_arith);
        assert(s * q == p);
        assert(pow2(j) == 2 * p);
        assert(f32_spacing(n) * q == pow2(j));
        q
    }
}

/// Rounding never passes a multiple of the spacing that lies at or above `n`.
proof fn lemma_round_at_most(n: nat, k: nat)
    requires
        n <= f32_spacing(n) * k,
    ensures
        round_to_single(n) <= f32_spacing(n) * k,
{
    let p = f32_spacing(n);
    lemma_spacing_positive(n);
    let q = n / p;
    let r = n % p;
    lemma_fundamental_div_mod(n as int, p as int);
    lemma_mod_bound(n as int, p as int);
    lemma_mul_is_commutative(p as int, q as int);
    if r > 0 {
        assert(q * p < k * p) by {
            lemma_mul_is_commutative(p as int, k as int);
        }
        lemma_mul_strict_inequality_converse(q as int, k as int, p as int);
        lemma_mul_inequality((q + 1) as int, k as int, p as int);
        lemma_mul_is_commutative(p as int, k as int);
    } else {
        assert(q * p == n);
    }
}

/// Rounds `n` as `n as f32` does, for `n` below 2^41.
fn round_single(n: u64) -> (r: u64)
    requires
        n < 0x200_0000_0000,
    ensures
        r == round_to_single(n as nat),
        r <= 2 * n,
{
    let mut p: u64 = 1;
    proof {
        lemma_spacing_positive(n as nat);
    }
    while n / p >= 0x100_0000
        invariant
            p >= 1,
            n < 0x200_0000_0000,
            p == 1 || p * 0x80_0000 <= n,
            f32_spacing(n as nat) == p * f32_spacing((n / p) as nat),
        decreases n / p,
    {
        proof {
            let ni = n as int;
            let pi = p as int;
            let m = ni / pi;
            lemma_div_denominator(ni, pi, 2);
            assert(f32_spacing(m as nat) == 2 * f32_spacing((m / 2) as nat));
            lemma_mul_is_associative(pi, 2, f32_spacing((m / 2) as nat) as int);
            lemma_fundamental_div_mod(ni, pi);
            lemma_mod_bound(ni, pi);
            lemma_mul_inequality(0x100_0000, m, pi);
            let m2 = ni / (pi * 2);
            assert(m2 < m) by {
                lemma_fundamental_div_mod(ni, pi * 2);
                lemma_mod_bound(ni, pi * 2);
                lemma_mul_is_associative(pi, 2, m2);
                lemma_mul_is_commutative(pi, 2 * m2);
                lemma_mul_is_commutative(pi, m);
                lemma_mul_is_distributive_add_other_way(pi, m, 1);
                lemma_mul_is_commutative(pi, m + 1);
                assert((2 * m2) * pi <= ni);
                assert(ni < (m + 1) * pi);
                lemma_mul_strict_inequality_converse(2 * m2, m + 1, pi);
            }
        }
        p = p * 2;
    }
    proof {
        assert(f32_spacing((n / p) as nat) == 1);
        lemma_fundamental_div_mod(n as int, p as int);
        lemma_mod_bound(n as int, p as int);
        lemma_mul_inequality((n / p) as int, n as int, p as int);
        assert(f32_spacing(n as nat) == p * f32_spacing((n / p) as nat));
        assert(p * f32_spacing((n / p) as nat) == p * 1);
        assert(f32_spacing(n as nat) == p);
    }
    let q = n / p;
    let r = n % p;
    if 2 * r > p || (2 * r == p && q % 2 == 1) {
        proof {
            lemma_mul_is_distributive_add_other_way(p as int, q as int, 1);
            lemma_mul_is_commutative(p as int, q as int);
            lemma_mul_is_commutative(p as int, (q + 1) as int);
            assert(p > 1);
            assert(q * p <= n);
            assert((q + 1) * p == q * p + p);
        }
        (q + 1) * p
    } else {
        q * p
    }
}

/// The byte that `(h as f32 / u32::MAX as f32 * 255.0) as u8` yields: the
/// float division by 2^32 is exact, the product is rounded once more, and the
/// conversion to `u8` truncates and saturates.
pub open spec fn unit_byte(h: u32) -> u8 {
    let v = round_to_single(round_to_single(h as nat) * 255) / 0x1_0000_0000;
    if v > 255 {
        255
    } else {
        v as u8
    }
}

/// The unit value `h as f32 / u32::MAX as f32` never exceeds 1, so the final
/// conversion to `u8` never saturates.
pub proof fn lemma_unit_byte_in_range(h: u32)
    ensures
        round_to_single(round_to_single(h as nat) * 255) / 0x1_0000_0000 <= 255,
        unit_byte(h) == round_to_single(round_to_single(h as nat) * 255) / 0x1_0000_0000,
{
    lemma2_to64();
    let q1 = lemma_spacing_divides(h as nat, 8);
    let s1 = f32_spacing(h as nat);
    assert(s1 * (q1 * 0x100_0000) == 0x1_0000_0000) by (nonlinear_arith)
        requires
            s1 * q1 == 256,
    ;
    lemma_round_at_most(h as nat, q1 * 0x100_0000);
    let f = round_to_single(h as nat);
    let m = f * 255;
    assert(m <= 255 * 0x1_0000_0000);
    let q2 = lemma_spacing_divides(m, 16);
    let s2 = f32_spacing(m);
    assert(s2 * (q2 * 255 * 0x1_0000) == 255 * 0x1_0000_0000) by (nonlinear_arith)
        requires
            s2 * q2 == 0x1_0000,
    ;
    lemma_round_at_most(m, q2 * 255 * 0x1_0000);
    let r = round_to_single(m);
    assert(r <= 255 * 0x1_0000_0000);
    assert(r / 0x1_0000_0000 <= 255);
}

/// Maps a hash to a byte as the float expression in [`unit_byte`] does.
pub fn hash_to_byte(h: u32) -> (b: u8)
    ensures
        b == unit_byte(h),
{
    let f = round_single(h as u64);
    let m = round_single(f * 255);
    let v = m / 0x1_0000_0000;
    if v > 255 {
        255
    } else {
        v as u8
    }
}

/// The 32-bit avalanche hash behind every texel.
pub open spec fn spec_mix32(seed: u32) -> u32 {
    let a = seed ^ (seed >> 16u32);
    let b = ((a as nat * 0x7FEB_352D) % 0x1_0000_0000) as u32;
    let c = b ^ (b >> 15u32);
    let d = ((c as nat * 0x846C_A68B) % 0x1_0000_0000) as u32;
    d ^ (d >> 16u32)
}

/// Mixes a seed: xor-shift, multiply, xor-shift, multiply, xor-shift, with
/// wrapping multiplication.
pub fn mix32(seed: u32) -> (h: u32)
    ensures
        h == spec_mix32(seed),
        h == ({
            let a = seed ^ (seed >> 16u32);
            let b = ((a as nat * 0x7FEB_352D) % 0x1_0000_0000) as u32;
            let c = b ^ (b >> 15u32);
            let d = ((c as nat * 0x846C_A68B) % 0x1_0000_0000) as u32;
            d ^ (d >> 16u32)
        }),
{
    let mut x = seed;
    x ^= x >> 16u32;
    x = x.wrapping_mul(0x7FEB_352D);
    x ^= x >> 15u32;
    x = x.wrapping_mul(0x846C_A68B);
    x ^= x >> 16u32;
    x
}

/// Byte drawn from the hash of `seed`, spread over `0..=255`.
pub open spec fn spec_hash_byte(seed: u32) -> u8 {
    unit_byte(spec_mix32(seed))
}

/// The seed of texel (32, 0) hashes to 1489338611.
pub proof fn lemma_mix32_at_texel_32_0()
    ensures
        texel_seed(32, 0) == 0xA3E5_19D7,
        spec_mix32(0xA3E5_19D7) == 1489338611,
{
    assert(texel_seed(32, 0) == 0xA3E5_19D7) by (bit_vector);
    let seed: u32 = 0xA3E5_19D7;
    let a: u32 = 0xA3E5_BA32;
    let b: u32 = 0x18D4_14CA;
    let c: u32 = 0x18D4_2562;
    let d: u32 = 0x58C5_D836;
    assert(seed ^ (seed >> 16u32) == a) by (bit_vector)
        requires
            seed == 0xA3E5_19D7u32,
            a == 0xA3E5_BA32u32,
    ;
    assert(((a as nat * 0x7FEB_352D) % 0x1_0000_0000) as u32 == b);
    assert(b ^ (b >> 15u32) == c) by (bit_vector)
        requires
            b == 0x18D4_14CAu32,
            c == 0x18D4_2562u32,
    ;
    assert(((c as nat * 0x846C_A68B) % 0x1_0000_0000) as u32 == d);
    assert(d ^ (d >> 16u32) == 1489338611u32) by (bit_vector)
        requires
            d == 0x58C5_D836u32,
    ;
    assert(spec_mix32(0xA3E5_19D7) == 1489338611);
}

/// Hashes `seed` and maps the hash to a byte.
pub fn hash_byte(seed: u32) -> (b: u8)
    ensures
        b == spec_hash_byte(seed),
{
    hash_to_byte(mix32(seed))
}

/// Width and height of the noise texture, in texels.
pub const NOISE_TEXTURE_SIZE: u32 = 96;

/// Bytes per texel (RGBA, 8 bits per channel).
pub const TEXEL_BYTES: usize = 4;

/// Constant mixed into every texel seed.
pub const TEXEL_SEED_SALT: u32 = 0xA3C5_19D7;

/// Constant that separates the green channel's seed from the red one's.
pub const PULSE_SEED_SALT: u32 = 0x59D2_F41B;

/// Amount by which the blue channel lifts the red one.
pub const BLUE_LIFT: u8 = 18;

/// Seed of the texel in column `x` and row `y`.
pub open spec fn texel_seed(x: u32, y: u32) -> u32 {
    (x << 16u32) ^ y ^ TEXEL_SEED_SALT
}

/// Red channel ("grain") of the texel at `(x, y)`.
pub open spec fn grain_at(x: u32, y: u32) -> u8 {
    spec_hash_byte(texel_seed(x, y))
}

/// Green channel ("pulse") of the texel at `(x, y)`.
pub open spec fn pulse_at(x: u32, y: u32) -> u8 {
    spec_hash_byte(texel_seed(x, y) ^ PULSE_SEED_SALT)
}

/// Blue channel: the grain lifted by [`BLUE_LIFT`], saturating at 255.
pub open spec fn blue_at(x: u32, y: u32) -> u8 {
    if grain_at(x, y) + BLUE_LIFT > 255 {
        255
    } else {
        (grain_at(x, y) + BLUE_LIFT) as u8
    }
}

/// Byte offset of the texel at `(x, y)` in the row-major texture.
pub open spec fn texel_offset(x: int, y: int) -> int {
    (y * NOISE_TEXTURE_SIZE + x) * TEXEL_BYTES
}

/// The four bytes of texel `(x, y)` in `data` are red grain, green pulse,
/// blue lifted grain and an opaque alpha.
pub open spec fn texel_holds(data: Seq<u8>, x: int, y: int) -> bool {
    let o = texel_offset(x, y);
    &&& data[o] == grain_at(x as u32, y as u32)
    &&& data[o + 1] == pulse_at(x as u32, y as u32)
    &&& data[o + 2] == blue_at(x as u32, y as u32)
    &&& data[o + 3] == 255
}

/// Builds the RGBA noise texture, row by row.
pub fn build_noise_texture() -> (data: Vec<u8>)
    ensures
        data.len() == NOISE_TEXTURE_SIZE * NOISE_TEXTURE_SIZE * TEXEL_BYTES,
        forall|x: int, y: int|
            0 <= x < NOISE_TEXTURE_SIZE && 0 <= y < NOISE_TEXTURE_SIZE ==> #[trigger] texel_holds(
                data@,
                x,
                y,
            ),
{
    let size = NOISE_TEXTURE_SIZE;
    let mut data: Vec<u8> = Vec::new();
    let mut y: u32 = 0;
    while y < size
        invariant
            size == NOISE_TEXTURE_SIZE,
            y <= size,
            data.len() == texel_offset(0, y as int),
            forall|xx: int, yy: int|
                0 <= xx < size && 0 <= yy < y ==> #[trigger] texel_holds(data@, xx, yy),
        decreases size - y,
    {
        let mut x: u32 = 0;
        while x < size
            invariant
                size == NOISE_TEXTURE_SIZE,
                y < size,
                x <= size,
                data.len() == texel_offset(x as int, y as int),
                forall|xx: int, yy: int|
                    0 <= xx < size && 0 <= yy < y ==> #[trigger] texel_holds(data@, xx, yy),
                forall|xx: int| 0 <= xx < x ==> #[trigger] texel_holds(data@, xx, y as int),
            decreases size - x,
        {
            let seed = (x << 16u32) ^ y ^ TEXEL_SEED_SALT;
            let grain = hash_byte(seed);
            let pulse = hash_byte(seed ^ PULSE_SEED_SALT);
            let ghost before = data@;
            data.push(grain);
            data.push(pulse);
            data.push(grain.saturating_add(BLUE_LIFT));
            data.push(255);
            proof {
                assert(data@ == before + seq![grain, pulse, grain.saturating_add(BLUE_LIFT), 255u8]);
                assert forall|xx: int, yy: int|
                    0 <= xx < size && 0 <= yy < y implies #[trigger] texel_holds(data@, xx, yy) by {
                    assert(texel_holds(before, xx, yy));
                }
                assert forall|xx: int| 0 <= xx < x + 1 implies #[trigger] texel_holds(
                    data@,
                    xx,
                    y as int,
                ) by {
                    if xx < x {
                        assert(texel_holds(before, xx, y as int));
                    }
                }
            }
            x = x + 1;
        }
        y = y + 1;
    }
    data
}

} // verus!
