use script_dsl::builtins::cm31::CM31Var;
use script_dsl::builtins::cm31_limbs::CM31LimbsVar;
use script_dsl::builtins::table::utils::add_cm31;
use script_dsl::builtins::table::TableVar;
use script_dsl::builtins::qm31::QM31Var;
use script_dsl::builtins::table::utils::{inverse_cm31, inverse_qm31, mul_cm31, mul_qm31};
use script_dsl::bvar::{AllocVar, BVar};
use script_dsl::constraint_system::ConstraintSystem;
use script_dsl::script::scriptnum_encode;
use script_dsl::test_program;

fn num(v: i64) -> Vec<u8> {
    scriptnum_encode(v)
}

#[test]
fn cm31_inverse_without_table() {
    let a_val = (2u32, 3u32);
    let mut cs = ConstraintSystem::new();
    let a = CM31Var::new_constant(&mut cs, a_val).unwrap();
    let a_inv = a.inverse_without_table(&mut cs).unwrap();
    let res = a.mul(&mut cs, &a_inv).unwrap();
    assert_eq!(res.value(), (1, 0));
    cs.set_program_output_ids(&res.variables()).unwrap();
    // the imaginary lane is deepest, the real lane above it
    test_program(&cs, &vec![num(0), num(1)]).unwrap();
}

#[test]
fn cm31_native_inverse_matches() {
    let vals = [(2u32, 3u32), (12345u32, 678910u32), (1u32, 0u32)];
    for v in vals {
        let inv = inverse_cm31(v);
        assert_eq!(mul_cm31(v, inv), (1, 0));
    }
}

#[test]
fn qm31_inverse_without_table() {
    let a_val = ((11u32, 22u32), (33u32, 44u32));
    let mut cs = ConstraintSystem::new();
    let a = QM31Var::new_constant(&mut cs, a_val).unwrap();
    let a_inv = a.inverse_without_table(&mut cs).unwrap();
    let res = a.mul(&mut cs, &a_inv).unwrap();
    assert_eq!(res.value(), ((1, 0), (0, 0)));
    cs.set_program_output_ids(&res.variables()).unwrap();
    test_program(&cs, &vec![num(0), num(0), num(0), num(1)]).unwrap();
}

#[test]
fn qm31_native_inverse_matches() {
    let v = ((7u32, 8u32), (9u32, 10u32));
    let inv = inverse_qm31(v);
    assert_eq!(mul_qm31(inv, v), ((1, 0), (0, 0)));
}

#[test]
fn qm31_conditional_swap_takes_the_bit() {
    let a_val = ((1u32, 2u32), (3u32, 4u32));
    let b_val = ((5u32, 6u32), (7u32, 8u32));
    let mut cs = ConstraintSystem::new();
    let a = QM31Var::new_constant(&mut cs, a_val).unwrap();
    let b = QM31Var::new_constant(&mut cs, b_val).unwrap();
    let bit0 = script_dsl::builtins::m31::M31Var::new_constant(&mut cs, 0).unwrap();
    let bit1 = script_dsl::builtins::m31::M31Var::new_constant(&mut cs, 1).unwrap();
    let (p0, p1) = a.conditional_swap(&mut cs, &b, &bit0).unwrap();
    assert_eq!(p0.value(), a_val);
    assert_eq!(p1.value(), b_val);
    let (q0, q1) = a.conditional_swap(&mut cs, &b, &bit1).unwrap();
    assert_eq!(q0.value(), b_val);
    assert_eq!(q1.value(), a_val);
}

#[test]
fn test_cm31_limbs_table_mul() {
    let a_val = (1_234_567u32, 89_012_345u32);
    let b_val = (67_890_123u32, 45_678_901u32);
    let expected = mul_cm31(a_val, b_val);

    let mut cs = ConstraintSystem::new();
    let a = CM31Var::new_constant(&mut cs, a_val).unwrap();
    let a_limbs = CM31LimbsVar::from_cm31(&mut cs, &a).unwrap();
    let b = CM31Var::new_constant(&mut cs, b_val).unwrap();
    let b_limbs = CM31LimbsVar::from_cm31(&mut cs, &b).unwrap();

    let table = TableVar::new_constant(&mut cs).unwrap();
    let res = a_limbs.mul(&mut cs, &table, &b_limbs).unwrap();
    assert_eq!(res.value(), expected);

    cs.set_program_output_ids(&res.variables()).unwrap();
    test_program(&cs, &vec![num(expected.1 as i64), num(expected.0 as i64)]).unwrap();
}

#[test]
fn cm31_limb_sum_is_the_field_sum() {
    let a_val = (3u32, 4u32);
    let b_val = (0x7fff_fffeu32, 6u32);
    let mut cs = ConstraintSystem::new();
    let a = CM31Var::new_constant(&mut cs, a_val).unwrap();
    let a_limbs = CM31LimbsVar::from_cm31(&mut cs, &a).unwrap();
    let b = CM31Var::new_constant(&mut cs, b_val).unwrap();
    let b_limbs = CM31LimbsVar::from_cm31(&mut cs, &b).unwrap();
    let s = a_limbs.add(&mut cs, &b_limbs).unwrap();
    let expected = add_cm31(a_val, b_val);
    let real = script_dsl::builtins::table::utils::convert_m31_from_limbs(&s.real.value());
    let imag = script_dsl::builtins::table::utils::convert_m31_from_limbs(&s.imag.value());
    assert_eq!((real, imag), expected);
}

#[test]
fn cm31_inverse() {
    let a_val = (2u32, 3u32);
    let mut cs = ConstraintSystem::new();
    let a = CM31Var::new_constant(&mut cs, a_val).unwrap();
    let table = TableVar::new_constant(&mut cs).unwrap();
    let a_inv = a.inverse(&mut cs, &table).unwrap();
    assert_eq!(a_inv.value(), inverse_cm31(a_val));
    let res = a.mul(&mut cs, &a_inv).unwrap();
    assert_eq!(res.value(), (1, 0));
    cs.set_program_output_ids(&res.variables()).unwrap();
    test_program(&cs, &vec![num(0), num(1)]).unwrap();
}

#[test]
fn qm31_inverse() {
    let a_val = ((2u32, 3u32), (4u32, 5u32));
    let mut cs = ConstraintSystem::new();
    let a = QM31Var::new_constant(&mut cs, a_val).unwrap();
    let table = TableVar::new_constant(&mut cs).unwrap();
    let a_inv = a.inverse(&mut cs, &table).unwrap();
    assert_eq!(a_inv.value(), inverse_qm31(a_val));
    let res = a.mul_by_table(&mut cs, &table, &a_inv).unwrap();
    assert_eq!(res.value(), ((1, 0), (0, 0)));
    cs.set_program_output_ids(&res.variables()).unwrap();
    test_program(&cs, &vec![num(0), num(0), num(0), num(1)]).unwrap();
}
