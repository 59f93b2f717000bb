use script_dsl::builtins::m31::M31Var;
use script_dsl::builtins::u8::U8Var;
use script_dsl::bvar::{AllocVar, AllocationMode, BVar};
use script_dsl::compiler::Compiler;
use script_dsl::constraint_system::{ConstraintSystem, Element};
use script_dsl::errors::Error;
use script_dsl::options::Options;
use script_dsl::builtins::bool::BoolVar;
use script_dsl::builtins::channel::reconstruct_for_channel_draw;
use script_dsl::builtins::str::StrVar;
use script_dsl::stack::Stack;
use script_dsl::script::{scriptnum_decode, scriptnum_encode};

#[test]
fn compiling_twice_gives_identical_programs() {
    let mut cs = ConstraintSystem::new();
    let a = M31Var::new_program_input(&mut cs, 2).unwrap();
    let b = M31Var::new_constant(&mut cs, 3).unwrap();
    let c = a.mul(&mut cs, &b).unwrap();
    cs.set_program_output_ids(&c.variables()).unwrap();

    let p1 = Compiler::compile(&cs).unwrap();
    let p2 = Compiler::compile(&cs).unwrap();
    assert_eq!(p1.script, p2.script);
    assert_eq!(p1.hint.len(), p2.hint.len());
    assert_eq!(p1.input.len(), p2.input.len());
}

#[test]
fn program_inputs_lead_the_memory() {
    let mut cs = ConstraintSystem::new();
    let _a = M31Var::new_program_input(&mut cs, 5).unwrap();
    let _b = M31Var::new_program_input(&mut cs, 6).unwrap();
    let _c = M31Var::new_constant(&mut cs, 7).unwrap();
    let p = Compiler::compile(&cs).unwrap();
    assert_eq!(p.input.len(), 2);
    match &p.input[0] {
        Element::Num(v) => assert_eq!(*v, 5),
        _ => panic!("a number lane was expected"),
    }
}

#[test]
fn inputs_after_constants_are_refused() {
    let mut cs = ConstraintSystem::new();
    let _c = M31Var::new_constant(&mut cs, 7).unwrap();
    assert_eq!(
        M31Var::new_program_input(&mut cs, 5).err(),
        Some(Error::OrderViolation)
    );
}

#[test]
fn finalize_latches_the_system() {
    let mut cs = ConstraintSystem::new();
    let a = M31Var::new_constant(&mut cs, 7).unwrap();
    cs.finalize();
    assert_eq!(
        M31Var::new_constant(&mut cs, 8).err(),
        Some(Error::FinalizedMutation)
    );
    assert_eq!(a.add(&mut cs, &a).err(), Some(Error::FinalizedMutation));
}

#[test]
fn hints_arrive_in_trace_order() {
    let mut cs = ConstraintSystem::new();
    let _h1 = U8Var::new_hint(&mut cs, 11).unwrap();
    let _h2 = U8Var::new_hint(&mut cs, 22).unwrap();
    let p = Compiler::compile(&cs).unwrap();
    assert_eq!(p.hint.len(), 2);
    match (&p.hint[0], &p.hint[1]) {
        (Element::Num(a), Element::Num(b)) => {
            assert_eq!(*a, 11);
            assert_eq!(*b, 22);
        },
        _ => panic!("number lanes were expected"),
    }
}

#[test]
fn unknown_operand_ids_refuse_to_compile() {
    let mut cs = ConstraintSystem::new();
    let _a = M31Var::new_constant(&mut cs, 7).unwrap();
    let mut bogus: Vec<usize> = Vec::new();
    bogus.push(99);
    cs.insert_script(Vec::new(), bogus).unwrap();
    assert!(Compiler::compile(&cs).is_err());
}

#[test]
fn scriptnum_round_trips() {
    for v in [0i64, 1, -1, 127, 128, -128, 255, 256, 0x7fffffff, -0x7fffffff] {
        let bytes = scriptnum_encode(v);
        assert_eq!(scriptnum_decode(&bytes), v);
    }
    assert_eq!(scriptnum_encode(0), Vec::<u8>::new());
    assert_eq!(scriptnum_encode(1), vec![0x01]);
    assert_eq!(scriptnum_encode(-1), vec![0x81]);
    assert_eq!(scriptnum_encode(128), vec![0x80, 0x00]);
    assert_eq!(scriptnum_encode(255), vec![0xff, 0x00]);
}

#[test]
fn options_resolve_the_latest_entry() {
    let opts = Options::new().with_u32("table_ref", 5).with_u32("table_ref", 9);
    assert_eq!(opts.get_u32("table_ref").unwrap(), 9);
    assert!(opts.get_u64("table_ref").is_err());
    assert!(opts.get_u32("absent").is_err());
    assert!(opts.contains_key("table_ref"));
    assert!(!opts.contains_key("absent"));
    let opts = opts.with_string("label", "shared");
    assert_eq!(opts.get_string("label").unwrap(), "shared");
}

#[test]
fn bool_lanes_follow_their_truth_tables() {
    let mut cs = ConstraintSystem::new();
    let t = BoolVar::new_constant(&mut cs, true).unwrap();
    let f = BoolVar::new_constant(&mut cs, false).unwrap();
    assert!(!t.and(&mut cs, &f).unwrap().value());
    assert!(t.or(&mut cs, &f).unwrap().value());
    assert!(t.xor(&mut cs, &f).unwrap().value());
    assert!(!t.xor(&mut cs, &t).unwrap().value());
    assert!(!t.not(&mut cs).unwrap().value());
    t.verify(&mut cs).unwrap();
}

#[test]
fn allocation_modes_shape_the_trace() {
    let mut cs = ConstraintSystem::new();
    let _i = U8Var::new_variable(&mut cs, 1, AllocationMode::ProgramInput).unwrap();
    let _c = U8Var::new_variable(&mut cs, 2, AllocationMode::Constant).unwrap();
    let _h = U8Var::new_variable(&mut cs, 3, AllocationMode::Hint).unwrap();
    assert_eq!(cs.memory.len(), 3);
    assert_eq!(cs.num_inputs, Some(1));
    let p = Compiler::compile(&cs).unwrap();
    assert_eq!(p.input.len(), 1);
    assert_eq!(p.hint.len(), 1);
}

#[test]
fn marking_an_unknown_output_is_memory_corruption() {
    let mut cs = ConstraintSystem::new();
    let _a = M31Var::new_constant(&mut cs, 7).unwrap();
    let mut ids: Vec<usize> = Vec::new();
    ids.push(42);
    assert_eq!(
        cs.set_program_output_ids(&ids).err(),
        Some(Error::MemoryCorruption)
    );
}

#[test]
fn a_wrong_expected_stack_is_refused() {
    let mut cs = ConstraintSystem::new();
    let a = M31Var::new_constant(&mut cs, 7).unwrap();
    cs.set_program_output_ids(&a.variables()).unwrap();
    let expected = vec![scriptnum_encode(8)];
    assert_eq!(
        script_dsl::test_program(&cs, &expected).err(),
        Some(Error::TypeMismatch)
    );
}

#[test]
fn a_lane_wide_channel_hint_is_ambiguous() {
    let mut cs = ConstraintSystem::new();
    // the four bytes spell the modulus itself, which no lane can hold
    let hint = StrVar::new_hint(&mut cs, vec![0xff, 0xff, 0xff, 0x7f]).unwrap();
    assert_eq!(
        reconstruct_for_channel_draw(&mut cs, &hint).err(),
        Some(Error::EncodingAmbiguous)
    );
}

#[test]
fn a_negative_zero_hint_reconstructs_to_zero() {
    let mut cs = ConstraintSystem::new();
    let hint = StrVar::new_hint(&mut cs, vec![0x80]).unwrap();
    let (m, packet) = reconstruct_for_channel_draw(&mut cs, &hint).unwrap();
    assert_eq!(m.value(), 0);
    assert_eq!(packet.value(), vec![0x00, 0x00, 0x00, 0x80]);
}

#[test]
fn the_stack_model_tracks_depth_and_liveness() {
    let mut stack = Stack::new(4);
    stack.push_to_stack(0).unwrap();
    stack.push_to_stack(1).unwrap();
    stack.push_to_stack(3).unwrap();
    assert_eq!(stack.get_num_elements_in_stack(), 3);
    assert_eq!(stack.get_relative_position(3).unwrap(), 0);
    assert_eq!(stack.get_relative_position(1).unwrap(), 1);
    assert_eq!(stack.get_relative_position(0).unwrap(), 2);
    assert!(stack.is_present(1).unwrap());
    assert!(!stack.is_present(2).unwrap());
    stack.pull(1).unwrap();
    assert!(stack.pull(1).is_err());
    assert!(stack.push_to_stack(1).is_err());
    assert_eq!(stack.get_num_elements_in_stack(), 2);
    assert_eq!(stack.get_relative_position(0).unwrap(), 1);
    assert!(stack.get_relative_position(2).is_err());
}
