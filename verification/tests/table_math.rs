use script_dsl::builtins::table::cm31::{CM31Limbs, CM31Mult};
use script_dsl::builtins::table::m31::{M31Limbs, M31Mult};
use script_dsl::builtins::table::utils::{
    convert_cm31_from_limbs, convert_cm31_to_limbs, convert_m31_from_limbs, convert_m31_to_limbs,
    pow2147483645, mul_m31, M31_MODULUS,
};
use script_dsl::builtins::table::{generate_table, get_table};
use rand::{RngExt, SeedableRng};

#[test]
fn table_holds_quarter_squares() {
    let t = get_table();
    assert_eq!(t.data.len(), 513);
    assert_eq!(t.data[0], 0);
    assert_eq!(t.data[1], 0);
    assert_eq!(t.data[2], 1);
    assert_eq!(t.data[3], 2);
    assert_eq!(t.data[512], 512 * 512 / 4);
    for i in 0..513usize {
        assert_eq!(t.data[i], ((i * i) / 4) as i64);
    }
}

#[test]
fn generate_table_smaller_sizes() {
    let t = generate_table(1);
    assert_eq!(t.data.len(), 3);
    let t = generate_table(8);
    assert_eq!(t.data.len(), 257);
}

#[test]
fn quarter_square_identity_on_bytes() {
    let t = get_table();
    for &(a, b) in &[(0usize, 0usize), (255, 255), (200, 13), (17, 17)] {
        let prod = (t.data[a + b] - t.data[a.max(b) - a.min(b)]) as usize;
        assert_eq!(prod, a * b);
    }
}

#[test]
fn limb_round_trip() {
    for v in [0u32, 1, 255, 256, 65535, M31_MODULUS - 1] {
        let limbs = convert_m31_to_limbs(v);
        assert_eq!(convert_m31_from_limbs(&limbs), v);
    }
}

#[test]
fn cm31_limb_round_trip() {
    let v = (123_456_789u32, 987_654_321u32);
    let limbs = convert_cm31_to_limbs(v);
    let real = [limbs[0], limbs[1], limbs[2], limbs[3]];
    let imag = [limbs[4], limbs[5], limbs[6], limbs[7]];
    assert_eq!(convert_cm31_from_limbs(&(real, imag)), v);
}

#[test]
fn pow_chain_inverts() {
    for v in [1u32, 2, 7, 65537, M31_MODULUS - 1] {
        let inv = pow2147483645(v);
        assert_eq!(mul_m31(v, inv), 1);
    }
}

#[test]
fn c_limbs_recompose_to_product() {
    let a = convert_m31_to_limbs(123_456_789);
    let b = convert_m31_to_limbs(987_654_321);
    let c = M31Mult::compute_c_limbs_from_limbs(&a, &b).unwrap();
    let mut val: u128 = 0;
    for k in (0..7).rev() {
        val = val * 256 + c[k] as u128;
    }
    assert_eq!(val, 123_456_789u128 * 987_654_321u128);
    let q = M31Mult::compute_q(&c).unwrap();
    assert_eq!(q as u128, val / (M31_MODULUS as u128));
}

#[test]
fn compute_q_refuses_bad_shapes() {
    assert!(M31Mult::compute_q(&[1, 2, 3]).is_err());
    assert!(M31Mult::compute_c_limbs_from_limbs(&[1, 2, 3], &[1, 2, 3, 4]).is_err());
    assert!(M31Mult::compute_c_limbs_from_limbs(&[1000, 2, 3, 4], &[1, 2, 3, 4]).is_err());
}

#[test]
fn plain_and_reduced_limb_sums() {
    let a = convert_m31_to_limbs(0x7ffffffe);
    let b = convert_m31_to_limbs(0x00000001);
    let plain = M31Limbs::add_limbs(&a, &b);
    for i in 0..4 {
        assert_eq!(plain[i], a[i] + b[i]);
    }
    let reduced = M31Limbs::add_limbs_with_reduction(&a, &b);
    let val = convert_m31_from_limbs(&reduced);
    assert_eq!(val, 0); // 0x7ffffffe + 1 == the modulus, which reduces to zero
}

#[test]
fn cm31_limb_sum_reduces_each_half() {
    let a = convert_cm31_to_limbs((M31_MODULUS - 1, 5));
    let b = convert_cm31_to_limbs((1, 6));
    let s = CM31Limbs::add_limbs(&a, &b);
    let real = convert_m31_from_limbs(&[s[0], s[1], s[2], s[3]]);
    let imag = convert_m31_from_limbs(&[s[4], s[5], s[6], s[7]]);
    assert_eq!(real, 0);
    assert_eq!(imag, 11);
}

#[test]
fn cm31_mult_hint_quotients() {
    let a = [123_456u32, 789_012u32];
    let b = [345_678u32, 901_234u32];
    let h = CM31Mult::compute_hint(&a, &b).unwrap();
    let p = M31_MODULUS as u64;
    assert_eq!(h.q3 as u64, (a[0] as u64 * b[0] as u64) / p);
    assert_eq!(h.q2 as u64, (a[1] as u64 * b[1] as u64) / p);
    assert_eq!(
        h.q1 as u64,
        ((a[0] as u64 + a[1] as u64) * (b[0] as u64 + b[1] as u64)) / p
    );
}

#[test]
fn test_mult() {
    let mut prng = rand_chacha::ChaCha20Rng::seed_from_u64(0);
    let p = M31_MODULUS as u64;
    for _ in 0..100 {
        let a_real = prng.random_range(0u32..((1u32 << 31) - 1));
        let a_imag = prng.random_range(0u32..((1u32 << 31) - 1));
        let b_real = prng.random_range(0u32..((1u32 << 31) - 1));
        let b_imag = prng.random_range(0u32..((1u32 << 31) - 1));

        let a = (a_real, a_imag);
        let b = (b_real, b_imag);
        let expected = script_dsl::builtins::table::cm31::mul_cm31(a, b);

        // an independent schoolbook reference for the complex product
        let ar = a_real as u64;
        let ai = a_imag as u64;
        let br = b_real as u64;
        let bi = b_imag as u64;
        let re = ((ar * br) % p + p - (ai * bi) % p) % p;
        let im = ((ar * bi) % p + (ai * br) % p) % p;
        assert_eq!(expected, (re as u32, im as u32));

        // the gadget's quotient hints match the product quotients; the
        // cross-sum quotient can outgrow its lane, which is refused
        let hint = CM31Mult::compute_hint(&[a_real, a_imag], &[b_real, b_imag]);
        if ((ar + ai) * (br + bi)) / p <= u32::MAX as u64 {
            let h = hint.unwrap();
            assert_eq!(h.q3 as u64, (ar * br) / p);
            assert_eq!(h.q2 as u64, (ai * bi) / p);
            assert_eq!(h.q1 as u64, ((ar + ai) * (br + bi)) / p);
        } else {
            assert!(hint.is_err());
        }

        // the emitted gadget bytes vary with the table's resolved depth
        let g0 = script_dsl::builtins::table::cm31::CM31MultGadget::mult(512);
        let g1 = script_dsl::builtins::table::cm31::CM31MultGadget::mult(600);
        assert_ne!(g0, g1);
        assert!(!g0.is_empty());
    }
}

#[test]
fn test_add_limbs() {
    let mut prng = rand_chacha::ChaCha20Rng::seed_from_u64(0);
    let p = M31_MODULUS as u64;
    for _ in 0..100 {
        let a_real = prng.random_range(0u32..((1u32 << 31) - 1));
        let a_imag = prng.random_range(0u32..((1u32 << 31) - 1));
        let b_real = prng.random_range(0u32..((1u32 << 31) - 1));
        let b_imag = prng.random_range(0u32..((1u32 << 31) - 1));

        let a_limbs = convert_cm31_to_limbs((a_real, a_imag));
        let b_limbs = convert_cm31_to_limbs((b_real, b_imag));

        let sum_limbs = CM31Limbs::add_limbs(&a_limbs, &b_limbs);
        assert_eq!(sum_limbs.len(), 8);

        // each half recomposes to the reduced field sum
        let real_sum = convert_m31_from_limbs(&sum_limbs[0..4]);
        let imag_sum = convert_m31_from_limbs(&sum_limbs[4..8]);
        assert_eq!(real_sum as u64, ((a_real as u64) + (b_real as u64)) % p);
        assert_eq!(imag_sum as u64, ((a_imag as u64) + (b_imag as u64)) % p);

        // the emitted gadget for the same fold
        let g = script_dsl::builtins::table::cm31::CM31LimbsGadget::add_limbs();
        assert!(!g.is_empty());
    }
}
