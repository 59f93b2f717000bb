use script_dsl::builtins::m31::M31Var;
use script_dsl::builtins::m31_limbs::M31LimbsVar;
use script_dsl::builtins::table::utils::{convert_m31_to_limbs, mul_m31, M31_MODULUS};
use script_dsl::builtins::table::TableVar;
use script_dsl::bvar::{AllocVar, BVar};
use script_dsl::constraint_system::ConstraintSystem;
use script_dsl::script::scriptnum_encode;
use script_dsl::test_program;

fn num(v: i64) -> Vec<u8> {
    scriptnum_encode(v)
}

#[test]
fn test_m31_mult() {
    let mut a_val: u32 = 1_234_567_891 % M31_MODULUS;
    let mut cs = ConstraintSystem::new();
    let mut a = M31Var::new_program_input(&mut cs, a_val).unwrap();

    let mut seed: u64 = 1;
    for _ in 0..10 {
        seed = seed.wrapping_mul(6364136223846793005).wrapping_add(1442695040888963407);
        let b_val = (seed % (M31_MODULUS as u64)) as u32;
        let b = M31Var::new_constant(&mut cs, b_val).unwrap();
        let c = a.mul(&mut cs, &b).unwrap();
        let c_val = mul_m31(a_val, b_val);
        assert_eq!(c.value(), c_val);
        a = c;
        a_val = c_val;
    }

    cs.set_program_output_ids(&a.variables()).unwrap();
    let expected = vec![num(a_val as i64)];
    test_program(&cs, &expected).unwrap();
}

#[test]
fn test_m31_inverse_without_table() {
    let a_val: u32 = 7;
    let mut cs = ConstraintSystem::new();
    let a = M31Var::new_constant(&mut cs, a_val).unwrap();
    let a_inv = a.inverse_without_table(&mut cs).unwrap();
    let res = a.mul(&mut cs, &a_inv).unwrap();
    assert_eq!(res.value(), 1);
    cs.set_program_output_ids(&res.variables()).unwrap();
    test_program(&cs, &vec![num(1)]).unwrap();
}

#[test]
fn test_m31_to_limbs() {
    let a_val: u32 = 987_654_321;
    let mut cs = ConstraintSystem::new();
    let a = M31Var::new_constant(&mut cs, a_val).unwrap();
    let a_limbs = M31LimbsVar::from_m31(&mut cs, &a).unwrap();

    cs.set_program_output_ids(&a_limbs.variables()).unwrap();
    let expected: Vec<Vec<u8>> = convert_m31_to_limbs(a_val)
        .iter()
        .map(|l| num(*l as i64))
        .collect();
    test_program(&cs, &expected).unwrap();
}

#[test]
fn test_m31_limbs_equalverify() {
    let a_val: u32 = 55_555_555;
    let mut cs = ConstraintSystem::new();
    let a = M31Var::new_constant(&mut cs, a_val).unwrap();
    let a_limbs = M31LimbsVar::from_m31(&mut cs, &a).unwrap();
    let a2_limbs = M31LimbsVar::from_m31(&mut cs, &a).unwrap();
    a_limbs.equalverify(&mut cs, &a2_limbs).unwrap();
    test_program(&cs, &Vec::new()).unwrap();
}

#[test]
fn test_m31_limbs_table_mul() {
    let a_val: u32 = 2_000_000_011 % M31_MODULUS;
    let b_val: u32 = 17_771_777;
    let mut cs = ConstraintSystem::new();
    let a = M31Var::new_constant(&mut cs, a_val).unwrap();
    let a_limbs = M31LimbsVar::from_m31(&mut cs, &a).unwrap();
    let b = M31Var::new_constant(&mut cs, b_val).unwrap();
    let b_limbs = M31LimbsVar::from_m31(&mut cs, &b).unwrap();
    let table = TableVar::new_constant(&mut cs).unwrap();
    let res = a_limbs.mul(&mut cs, &table, &b_limbs).unwrap();
    assert_eq!(res.value(), mul_m31(a_val, b_val));
    cs.set_program_output_ids(&res.variables()).unwrap();
    test_program(&cs, &vec![num(mul_m31(a_val, b_val) as i64)]).unwrap();
}

#[test]
fn test_m31_limbs_add() {
    let a_val: u32 = 1_111_111_111;
    let b_val: u32 = 222_222_222;
    let mut cs = ConstraintSystem::new();
    let a_var = M31Var::new_constant(&mut cs, a_val).unwrap();
    let a_limbs_var = M31LimbsVar::from_m31(&mut cs, &a_var).unwrap();
    let b_var = M31Var::new_constant(&mut cs, b_val).unwrap();
    let b_limbs_var = M31LimbsVar::from_m31(&mut cs, &b_var).unwrap();

    let a_limbs = convert_m31_to_limbs(a_val);
    let b_limbs = convert_m31_to_limbs(b_val);
    let sum_limbs: Vec<u32> = (0..4).map(|i| a_limbs[i] + b_limbs[i]).collect();

    let sum_limbs_var = a_limbs_var.add(&mut cs, &b_limbs_var).unwrap();
    assert_eq!(sum_limbs_var.value().to_vec(), sum_limbs);
    cs.set_program_output_ids(&sum_limbs_var.variables()).unwrap();
    let expected: Vec<Vec<u8>> = sum_limbs.iter().map(|l| num(*l as i64)).collect();
    test_program(&cs, &expected).unwrap();
}

#[test]
fn m31_mult_matches_field() {
    assert_eq!(mul_m31(3, 5), 15);
    assert_eq!(mul_m31(M31_MODULUS - 1, 2), M31_MODULUS - 2);
    assert_eq!(mul_m31(0, 12345), 0);
}

#[test]
fn test_m31_inverse() {
    let a_val: u32 = 7;
    let mut cs = ConstraintSystem::new();
    let a = M31Var::new_constant(&mut cs, a_val).unwrap();
    let table = TableVar::new_constant(&mut cs).unwrap();
    let a_inv = a.inverse(&mut cs, &table).unwrap();
    let a_limbs = M31LimbsVar::from_m31(&mut cs, &a).unwrap();
    let inv_limbs = M31LimbsVar::from_m31(&mut cs, &a_inv).unwrap();
    let res = a_limbs.mul(&mut cs, &table, &inv_limbs).unwrap();
    assert_eq!(res.value(), 1);
    cs.set_program_output_ids(&res.variables()).unwrap();
    test_program(&cs, &vec![num(1)]).unwrap();
}

#[test]
fn test_m31_limbs_inverse() {
    let a_val: u32 = 1_999_999_999 % M31_MODULUS;
    let mut cs = ConstraintSystem::new();
    let a = M31Var::new_constant(&mut cs, a_val).unwrap();
    let a_limbs = M31LimbsVar::from_m31(&mut cs, &a).unwrap();
    let table = TableVar::new_constant(&mut cs).unwrap();
    let a_inv_limbs = a_limbs.inverse(&mut cs, &table).unwrap();
    let res = a_limbs.mul(&mut cs, &table, &a_inv_limbs).unwrap();
    assert_eq!(res.value(), 1);
    cs.set_program_output_ids(&res.variables()).unwrap();
    test_program(&cs, &vec![num(1)]).unwrap();
}
