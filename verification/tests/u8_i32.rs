use script_dsl::builtins::i32::I32Var;
use script_dsl::builtins::u8::U8Var;
use script_dsl::bvar::{AllocVar, BVar};
use script_dsl::constraint_system::ConstraintSystem;
use script_dsl::script::scriptnum_encode;
use script_dsl::test_program;

fn num(v: i64) -> Vec<u8> {
    scriptnum_encode(v)
}

#[test]
fn test_add_u8() {
    let mut cs = ConstraintSystem::new();
    let a = U8Var::new_constant(&mut cs, 8).unwrap();
    let b = U8Var::new_constant(&mut cs, 4).unwrap();
    let c = a.add(&mut cs, &b).unwrap();
    c.check_format(&mut cs).unwrap();
    cs.set_program_output_ids(&c.variables()).unwrap();
    test_program(&cs, &vec![num(12)]).unwrap();
}

#[test]
fn test_sub_u8() {
    let mut cs = ConstraintSystem::new();
    let a = U8Var::new_constant(&mut cs, 8).unwrap();
    let b = U8Var::new_constant(&mut cs, 3).unwrap();
    let c = a.sub(&mut cs, &b).unwrap();
    c.check_format(&mut cs).unwrap();
    cs.set_program_output_ids(&c.variables()).unwrap();
    test_program(&cs, &vec![num(5)]).unwrap();
}

#[test]
fn test_add_u8_overflow() {
    let mut cs = ConstraintSystem::new();
    let a = U8Var::new_constant(&mut cs, 8).unwrap();
    let b = U8Var::new_constant(&mut cs, 248).unwrap();
    assert!(a.add(&mut cs, &b).is_err());
}

#[test]
fn test_sub_u8_overflow() {
    let mut cs = ConstraintSystem::new();
    let a = U8Var::new_constant(&mut cs, 8).unwrap();
    let b = U8Var::new_constant(&mut cs, 9).unwrap();
    assert!(a.sub(&mut cs, &b).is_err());
}

#[test]
fn u8_test_check_format() {
    let mut cs = ConstraintSystem::new();
    let a = U8Var::new_constant(&mut cs, 8).unwrap();
    a.check_format(&mut cs).unwrap();
    test_program(&cs, &Vec::new()).unwrap();
}

#[test]
fn test_add_i32() {
    let mut cs = ConstraintSystem::new();
    let a = I32Var::new_constant(&mut cs, i32::MAX).unwrap();
    let b = I32Var::new_constant(&mut cs, -1).unwrap();
    let c = a.add(&mut cs, &b).unwrap();
    c.check_format(&mut cs).unwrap();
    cs.set_program_output_ids(&c.variables()).unwrap();
    test_program(&cs, &vec![num((i32::MAX - 1) as i64)]).unwrap();
}

#[test]
fn test_add_i32_u8() {
    let mut cs = ConstraintSystem::new();
    let a = I32Var::new_constant(&mut cs, i32::MAX - 1).unwrap();
    let b = U8Var::new_constant(&mut cs, 1).unwrap();
    let c = a.add_u8(&mut cs, &b).unwrap();
    c.check_format(&mut cs).unwrap();
    cs.set_program_output_ids(&c.variables()).unwrap();
    test_program(&cs, &vec![num(i32::MAX as i64)]).unwrap();
}

#[test]
fn test_sub_i32() {
    let mut cs = ConstraintSystem::new();
    let a = I32Var::new_constant(&mut cs, i32::MIN + 2).unwrap();
    let b = I32Var::new_constant(&mut cs, -1).unwrap();
    let c = a.sub(&mut cs, &b).unwrap();
    c.check_format(&mut cs).unwrap();
    cs.set_program_output_ids(&c.variables()).unwrap();
    test_program(&cs, &vec![num((i32::MIN + 3) as i64)]).unwrap();
}

#[test]
fn test_sub_i32_u8() {
    let mut cs = ConstraintSystem::new();
    let a = I32Var::new_constant(&mut cs, i32::MIN + 2).unwrap();
    let b = U8Var::new_constant(&mut cs, 1).unwrap();
    let c = a.sub_u8(&mut cs, &b).unwrap();
    c.check_format(&mut cs).unwrap();
    cs.set_program_output_ids(&c.variables()).unwrap();
    test_program(&cs, &vec![num((i32::MIN + 1) as i64)]).unwrap();
}

#[test]
fn test_add_i32_overflow() {
    let mut cs = ConstraintSystem::new();
    let a = I32Var::new_constant(&mut cs, i32::MAX).unwrap();
    let b = I32Var::new_constant(&mut cs, 1).unwrap();
    assert!(a.add(&mut cs, &b).is_err());
}

#[test]
fn test_add_i32_overflow2() {
    let mut cs = ConstraintSystem::new();
    let a = I32Var::new_constant(&mut cs, i32::MAX).unwrap();
    let b = I32Var::new_constant(&mut cs, -1).unwrap();
    assert!(a.sub(&mut cs, &b).is_err());
}

#[test]
fn test_add_i32_u8_overflow() {
    let mut cs = ConstraintSystem::new();
    let a = I32Var::new_constant(&mut cs, i32::MAX).unwrap();
    let b = U8Var::new_constant(&mut cs, 1).unwrap();
    assert!(a.add_u8(&mut cs, &b).is_err());
}

#[test]
fn test_sub_i32_overflow() {
    let mut cs = ConstraintSystem::new();
    let a = I32Var::new_constant(&mut cs, i32::MIN + 1).unwrap();
    let b = I32Var::new_constant(&mut cs, 1).unwrap();
    assert!(a.sub(&mut cs, &b).is_err());
}

#[test]
fn test_sub_i32_overflow2() {
    let mut cs = ConstraintSystem::new();
    let a = I32Var::new_constant(&mut cs, i32::MIN + 1).unwrap();
    let b = I32Var::new_constant(&mut cs, -1).unwrap();
    assert!(a.add(&mut cs, &b).is_err());
}

#[test]
fn test_sub_i32_u8_overflow() {
    let mut cs = ConstraintSystem::new();
    let a = I32Var::new_constant(&mut cs, i32::MIN + 1).unwrap();
    let b = U8Var::new_constant(&mut cs, 1).unwrap();
    assert!(a.sub_u8(&mut cs, &b).is_err());
}

#[test]
fn i32_test_check_format() {
    let mut cs = ConstraintSystem::new();
    let a = I32Var::new_constant(&mut cs, -8).unwrap();
    a.check_format(&mut cs).unwrap();
    test_program(&cs, &Vec::new()).unwrap();
}

#[test]
fn test_i32_to_positive_limbs() {
    for l in 1..=8u32 {
        let mut cs = ConstraintSystem::new();
        let a: i32 = 1_876_543_210;
        let a_var = I32Var::new_constant(&mut cs, a).unwrap();
        let res_var = a_var.to_positive_limbs(&mut cs, l).unwrap();

        let n = ((32 + l - 1) / l) as usize;
        let mut expected = vec![];
        let mut cur = a as u32;
        for _ in 0..n {
            expected.push(cur & ((1u32 << l) - 1));
            cur >>= l;
        }

        assert_eq!(res_var.len(), n);
        for i in 0..n {
            assert_eq!(res_var[i].value() as u32, expected[i]);
            cs.set_program_output_ids(&res_var[i].variables()).unwrap();
        }
        let expected_stack: Vec<Vec<u8>> = expected.iter().map(|v| num(*v as i64)).collect();
        test_program(&cs, &expected_stack).unwrap();
    }
}
