use script_dsl::builtins::hash::{sha256, HashVar};
use script_dsl::bvar::{AllocVar, BVar};
use script_dsl::constraint_system::ConstraintSystem;
use script_dsl::builtins::qm31::QM31Var;
use script_dsl::ldm::LDM;
use script_dsl::script::scriptnum_encode;
use script_dsl::test_program;

#[test]
fn test_draw_felt() {
    // a channel seeded with 32 zero bytes
    let init_state = vec![0u8; 32];
    let mut cs = ConstraintSystem::new();
    let mut channel_digest = HashVar::new_constant(&mut cs, init_state.clone()).unwrap();
    let res = channel_digest.draw_felt(&mut cs).unwrap();

    // the reference: the channel digest advances to the hash of itself,
    // and the drawn digest is the hash of the old digest and a zero byte
    let expected_digest = sha256(&init_state);
    let mut extended = init_state.clone();
    extended.push(0x00);
    let drawn = sha256(&extended);
    assert_eq!(channel_digest.value(), expected_digest);

    // the four lanes come from the drawn digest's four-byte packets,
    // with the top bit of each packet as a sign to strip
    let mut expected_lanes = [0u32; 4];
    for i in 0..4 {
        let w = u32::from_le_bytes([
            drawn[4 * i],
            drawn[4 * i + 1],
            drawn[4 * i + 2],
            drawn[4 * i + 3],
        ]);
        expected_lanes[i] = w & 0x7fff_ffff;
    }
    let v = res.value();
    assert_eq!(v.0 .0, expected_lanes[0]);
    assert_eq!(v.0 .1, expected_lanes[1]);
    assert_eq!(v.1 .0, expected_lanes[2]);
    assert_eq!(v.1 .1, expected_lanes[3]);

    cs.set_program_output_ids(&channel_digest.variables()).unwrap();
    cs.set_program_output_ids(&res.variables()).unwrap();
    let mut expected_stack: Vec<Vec<u8>> = vec![expected_digest];
    expected_stack.push(script_dsl::script::scriptnum_encode(expected_lanes[3] as i64));
    expected_stack.push(script_dsl::script::scriptnum_encode(expected_lanes[2] as i64));
    expected_stack.push(script_dsl::script::scriptnum_encode(expected_lanes[1] as i64));
    expected_stack.push(script_dsl::script::scriptnum_encode(expected_lanes[0] as i64));
    test_program(&cs, &expected_stack).unwrap();
}

#[test]
fn test_ldm() {
    let a_val = vec![1u8; 32];
    let b_val = vec![2u8; 32];

    let mut ldm = LDM::new();

    let mut cs = ConstraintSystem::new();
    ldm.init(&mut cs).unwrap();

    let a = HashVar::new_constant(&mut cs, a_val).unwrap();
    let b = HashVar::new_constant(&mut cs, b_val).unwrap();
    let c = a.combine(&mut cs, &b).unwrap();
    let c_val = c.value();

    ldm.write(&mut cs, "c", &c).unwrap();
    ldm.save(&mut cs).unwrap();

    let commitment = match &ldm.hash_var {
        Some(h) => h.value(),
        None => unreachable!(),
    };
    test_program(&cs, &vec![commitment.clone()]).unwrap();

    // a second program replays the store
    let mut cs = ConstraintSystem::new();
    ldm.init(&mut cs).unwrap();
    let c2 = ldm.read::<HashVar>(&mut cs, "c").unwrap();
    assert_eq!(c2.value(), c_val);

    ldm.check(&mut cs).unwrap();
    ldm.save(&mut cs).unwrap();

    let commitment2 = match &ldm.hash_var {
        Some(h) => h.value(),
        None => unreachable!(),
    };
    test_program(&cs, &vec![commitment2]).unwrap();
}

#[test]
fn test_ldm_detects_a_flipped_bit() {
    let a_val = vec![9u8; 32];
    let mut ldm = LDM::new();
    let mut cs = ConstraintSystem::new();
    ldm.init(&mut cs).unwrap();
    let a = HashVar::new_constant(&mut cs, a_val).unwrap();
    ldm.write(&mut cs, "c", &a).unwrap();
    ldm.save(&mut cs).unwrap();

    // a second program with one stored digest bit flipped must refuse
    let mut cs = ConstraintSystem::new();
    ldm.init(&mut cs).unwrap();
    let _ = ldm.read::<HashVar>(&mut cs, "c").unwrap();
    ldm.hash_map[0][0] ^= 1;
    assert!(ldm.check(&mut cs).is_err());
}

#[test]
fn hash_fold_matches_a_manual_chain() {
    let mut cs = ConstraintSystem::new();
    let q = QM31Var::new_constant(&mut cs, ((5u32, 6u32), (7u32, 8u32))).unwrap();
    let h = script_dsl::builtins::hash::HashVar::from_var(&mut cs, &q).unwrap();

    // the reference: seed with the encoded footprint, then fold each
    // element in stack order over its encoding and the running digest
    let mut cur = sha256(&scriptnum_encode(4));
    for v in [8i64, 7, 6, 5] {
        let mut buf = scriptnum_encode(v);
        buf.extend_from_slice(&cur);
        cur = sha256(&buf);
    }
    assert_eq!(h.value(), cur);
}

#[test]
fn test_ldm_typed_round_trip() {
    // a field value written in one program comes back typed in the next
    let mut ldm = LDM::new();
    let mut cs = ConstraintSystem::new();
    ldm.init(&mut cs).unwrap();
    let q = QM31Var::new_constant(&mut cs, ((1u32, 2u32), (3u32, 4u32))).unwrap();
    ldm.write(&mut cs, "q", &q).unwrap();
    ldm.save(&mut cs).unwrap();

    let mut cs = ConstraintSystem::new();
    ldm.init(&mut cs).unwrap();
    // a read under the wrong kind is refused before anything changes
    assert!(ldm.read::<HashVar>(&mut cs, "q").is_err());
    let q2 = ldm.read::<QM31Var>(&mut cs, "q").unwrap();
    assert_eq!(q2.value(), ((1, 2), (3, 4)));
    ldm.check(&mut cs).unwrap();
}
