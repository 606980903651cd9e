use vzglyd_clock::noise::{
    build_noise_texture, hash_byte, hash_to_byte, mix32, BLUE_LIFT, NOISE_TEXTURE_SIZE,
    PULSE_SEED_SALT, TEXEL_BYTES, TEXEL_SEED_SALT,
};

/// The single-precision mapping from a hash to a byte, written with floats.
fn float_unit_byte(h: u32) -> u8 {
    let unit = h as f32 / u32::MAX as f32;
    (unit * 255.0) as u8
}

#[test]
fn mix32_known_values() {
    assert_eq!(mix32(0), 0);
    assert_eq!(mix32(1), 1_753_845_952);
    assert_eq!(mix32(12345), 0x912e_fcf7);
    assert_eq!(mix32(0xA3C5_19D7), 4_108_443_505);
}

#[test]
fn hash_to_byte_edges() {
    assert_eq!(hash_to_byte(0), 0);
    assert_eq!(hash_to_byte(1), 0);
    assert_eq!(hash_to_byte(u32::MAX), 255);
    assert_eq!(hash_to_byte(0x8000_0000), 127);
    assert_eq!(hash_to_byte(4_108_443_505), 243);
    assert_eq!(hash_to_byte(3_337_710_411), 198);
}

#[test]
fn hash_to_byte_rounds_like_single_precision() {
    // Here the exact quotient 255 * h / 2^32 lies just below 3, yet the
    // single-precision product rounds up to 3.0.
    assert_eq!((50_529_027u64 * 255) >> 32, 2);
    assert_eq!(hash_to_byte(50_529_027), 3);
    assert_eq!(float_unit_byte(50_529_027), 3);
}

#[test]
fn hash_to_byte_agrees_with_floats_on_a_sweep() {
    let mut h: u32 = 0;
    loop {
        assert_eq!(hash_to_byte(h), float_unit_byte(h), "hash {h}");
        match h.checked_add(65_521) {
            Some(next) => h = next,
            None => break,
        }
    }
    for h in 50_529_000u32..50_529_100 {
        assert_eq!(hash_to_byte(h), float_unit_byte(h), "hash {h}");
    }
    for h in (u32::MAX - 300)..=u32::MAX {
        assert_eq!(hash_to_byte(h), float_unit_byte(h), "hash {h}");
    }
}

#[test]
fn hash_byte_is_mix_then_byte() {
    for seed in [0u32, 7, 0xA3C5_19D7, 0xDEAD_BEEF, u32::MAX] {
        assert_eq!(hash_byte(seed), hash_to_byte(mix32(seed)));
    }
}

#[test]
fn noise_texture_first_texel() {
    let data = build_noise_texture();
    assert_eq!(&data[0..4], &[243, 198, 255, 255]);
}

#[test]
fn noise_texture_matches_float_formula() {
    let data = build_noise_texture();
    let size = NOISE_TEXTURE_SIZE as usize;
    assert_eq!(data.len(), size * size * TEXEL_BYTES);
    for y in 0..size {
        for x in 0..size {
            let seed = ((x as u32) << 16) ^ y as u32 ^ TEXEL_SEED_SALT;
            let grain = float_unit_byte(mix32(seed));
            let pulse = float_unit_byte(mix32(seed ^ PULSE_SEED_SALT));
            let offset = (y * size + x) * 4;
            assert_eq!(data[offset], grain);
            assert_eq!(data[offset + 1], pulse);
            assert_eq!(data[offset + 2], grain.saturating_add(BLUE_LIFT));
            assert_eq!(data[offset + 3], 255);
        }
    }
}
