use vstd::prelude::*;
use crate::builtins::cm31::CM31Var;
use crate::builtins::hash::{sha256, sha256_of, HashVar};
use crate::builtins::m31::M31Var;
use crate::builtins::qm31::QM31Var;
use crate::builtins::str::{clone_bytes, StrVar};
use crate::builtins::table::utils::{is_m31, M31_MODULUS};
use crate::bvar::{AllocVar, AllocationMode, BVar};
use crate::constraint_system::ConstraintSystem;
use crate::errors::Error;
use crate::script::{
    emit_op, lemma_mag_value_bound, pow_256, scriptnum_bytes, scriptnum_decode, scriptnum_encode,
    scriptnum_value,
    OP_ABS, OP_CAT, OP_DROP, OP_DUP, OP_ELSE, OP_ENDIF, OP_EQUAL, OP_FROMALTSTACK, OP_IF,
    OP_LEFT, OP_LESSTHAN, OP_PUSHBYTES_0, OP_PUSHBYTES_1, OP_PUSHBYTES_2, OP_PUSHBYTES_4,
    OP_ROT, OP_SHA256, OP_SIZE, OP_SWAP, OP_TOALTSTACK,
};

verus! {

/// The magnitude bytes of a value whose top byte stays below the sign
/// bit recompose below the signed 32-bit boundary.
proof fn lemma_mag_high_bound(s: Seq<u8>)
    requires
        1 <= s.len() <= 4,
        s.last() < 0x80,
    ensures
        crate::script::mag_value(s) <= 0x80 * pow_256((s.len() - 1) as nat) - 1,
    decreases s.len(),
{
    if s.len() == 1 {
        reveal_with_fuel(crate::script::mag_value, 3);
        assert(s.subrange(1, 1) =~= Seq::<u8>::empty());
    } else {
        let rest = s.subrange(1, s.len() as int);
        assert(rest.last() == s.last());
        lemma_mag_high_bound(rest);
        assert(256 * crate::script::mag_value(rest) <= 256 * (0x80 * pow_256(
            (rest.len() - 1) as nat,
        ) - 1)) by (nonlinear_arith)
            requires
                crate::script::mag_value(rest) <= 0x80 * pow_256((rest.len() - 1) as nat) - 1,
        ;
        assert(256 * (0x80 * pow_256((rest.len() - 1) as nat)) == 0x80 * pow_256(
            (s.len() - 1) as nat,
        )) by (nonlinear_arith)
            requires
                pow_256((s.len() - 1) as nat) == 256 * pow_256((rest.len() - 1) as nat),
        ;
    }
}

/// The magnitude of a short encoded number: at most four bytes keep it
/// inside the signed 32-bit lane.
pub proof fn lemma_short_scriptnum_bound(s: Seq<u8>)
    requires
        s.len() <= 4,
    ensures
        -0x8000_0000 < scriptnum_value(s) < 0x8000_0000,
{
    if s.len() > 0 {
        if s.last() >= 0x80 {
            let cleared = s.update(s.len() - 1, (s.last() - 0x80) as u8);
            assert(cleared.last() < 0x80);
            lemma_mag_high_bound(cleared);
            lemma_mag_value_bound(cleared);
            assert(pow_256(3) == 0x100_0000) by {
                reveal_with_fuel(pow_256, 5);
            }
            crate::script::lemma_pow_256_mono((cleared.len() - 1) as nat, 3);
        } else {
            lemma_mag_high_bound(s);
            lemma_mag_value_bound(s);
            assert(pow_256(3) == 0x100_0000) by {
                reveal_with_fuel(pow_256, 5);
            }
            crate::script::lemma_pow_256_mono((s.len() - 1) as nat, 3);
        }
    }
}

/// The canonical four-byte packet of a short hint: the bytes zero-padded
/// to three, then the sign byte appended.
pub open spec fn pad4(s: Seq<u8>, neg: bool) -> Seq<u8> {
    let t = if s.len() < 2 {
        s + seq![0u8, 0u8]
    } else {
        s
    };
    let t2 = if t.len() < 3 {
        t + seq![0u8]
    } else {
        t
    };
    t2 + seq![
        if neg {
            0x80u8
        } else {
            0x00u8
        },
    ]
}

/// A hint byte string the channel unpacker accepts: the negative-zero
/// byte, or an encoded value whose magnitude stays below the modulus and
/// whose length fits its canonical four-byte form.
pub open spec fn hint_ok(s: Seq<u8>) -> bool {
    if s == seq![0x80u8] {
        true
    } else {
        let v = scriptnum_value(s);
        let m = if v < 0 {
            -v
        } else {
            v
        };
        &&& m < M31_MODULUS
        &&& (if scriptnum_bytes(m).len() < 4 {
            s.len() <= 3
        } else {
            s.len() == 4
        })
    }
}

/// The field lane a hint stands for: the magnitude of its encoded value.
pub open spec fn hint_lane(s: Seq<u8>) -> int {
    if scriptnum_value(s) < 0 {
        -scriptnum_value(s)
    } else {
        scriptnum_value(s)
    }
}

/// The four-byte packet a hint canonicalises to inside the drawn digest.
pub open spec fn hint_packet(s: Seq<u8>) -> Seq<u8> {
    if s == seq![0x80u8] {
        seq![0u8, 0u8, 0u8, 0x80u8]
    } else if scriptnum_bytes(hint_lane(s)).len() < 4 {
        pad4(s, scriptnum_value(s) < 0)
    } else {
        s
    }
}

/// The little-endian word held by the digest's `k`-th four-byte packet.
pub open spec fn packet_word(d: Seq<u8>, k: int) -> int {
    d[4 * k] + 256 * (d[4 * k + 1] as int) + 65536 * (d[4 * k + 2] as int) + 16777216 * (d[4 * k
        + 3] as int)
}

/// The magnitude of a packet's word: its value with the top bit cleared.
pub open spec fn packet_mag(d: Seq<u8>, k: int) -> int {
    packet_word(d, k) % 0x8000_0000
}

/// Whether a packet's word carries the sign bit.
pub open spec fn packet_neg(d: Seq<u8>, k: int) -> bool {
    packet_word(d, k) >= 0x8000_0000
}

/// The hint bytes a draw supplies for the digest's `k`-th packet: the
/// encoded signed magnitude, or the negative-zero byte.
pub open spec fn packet_hint(d: Seq<u8>, k: int) -> Seq<u8> {
    if packet_mag(d, k) == 0 && packet_neg(d, k) {
        seq![0x80u8]
    } else {
        scriptnum_bytes(
            if packet_neg(d, k) {
                -packet_mag(d, k)
            } else {
                packet_mag(d, k)
            },
        )
    }
}

/// The concatenation of the canonical packets of the first `n` hints.
pub open spec fn packets_of(hs: Seq<crate::builtins::str::StrVar>, n: int) -> Seq<u8>
    decreases n when n >= 0
{
    if n <= 0 {
        Seq::empty()
    } else {
        packets_of(hs, n - 1) + hint_packet(hs[n - 1].value@)
    }
}

/// A packet's hint stands for exactly the packet's magnitude.
proof fn lemma_packet_lane(d: Seq<u8>, k: int)
    ensures
        hint_lane(packet_hint(d, k)) == packet_mag(d, k),
{
    if packet_mag(d, k) == 0 && packet_neg(d, k) {
        assert(scriptnum_value(seq![0x80u8]) == 0) by {
            reveal_with_fuel(crate::script::mag_value, 3);
            assert(seq![0x80u8].update(0int, 0u8) =~= seq![0u8]);
            assert(seq![0u8].subrange(1, 1) =~= Seq::<u8>::empty());
        }
    } else {
        let v = if packet_neg(d, k) {
            -packet_mag(d, k)
        } else {
            packet_mag(d, k)
        };
        crate::script::lemma_scriptnum_round_trip(v);
    }
}

/// Hints built from a digest's packets re-concatenate to the digest
/// exactly when the digest's own canonical packets do.
proof fn lemma_packets_concat(hs: Seq<crate::builtins::str::StrVar>, d: Seq<u8>)
    requires
        hs.len() == 5,
        forall|k: int| 0 <= k < 4 ==> (#[trigger] hs[k].value@) == packet_hint(d, k),
        hs[4].value@ == d.subrange(16, 32),
    ensures
        (packets_of(hs, 4) + hs[4].value@ == d) == (hint_packet(packet_hint(d, 0)) + hint_packet(
            packet_hint(d, 1),
        ) + hint_packet(packet_hint(d, 2)) + hint_packet(packet_hint(d, 3)) + d.subrange(16, 32)
            == d),
{
    reveal_with_fuel(packets_of, 6);
    assert(packets_of(hs, 4) =~= hint_packet(hs[0].value@) + hint_packet(hs[1].value@)
        + hint_packet(hs[2].value@) + hint_packet(hs[3].value@));
    assert(packets_of(hs, 4) + hs[4].value@ =~= hint_packet(packet_hint(d, 0)) + hint_packet(
        packet_hint(d, 1),
    ) + hint_packet(packet_hint(d, 2)) + hint_packet(packet_hint(d, 3)) + d.subrange(16, 32));
}

/// A digest whose four packets can be drawn: every packet's hint fits
/// four bytes, is accepted by the unpacker, and the canonical packets,
/// with the digest's second half, spell the digest back.
pub open spec fn draw_ok(d: Seq<u8>) -> bool {
    &&& (forall|k: int| 0 <= k < 4 ==> (#[trigger] packet_hint(d, k)).len() <= 4)
    &&& (forall|k: int| 0 <= k < 4 ==> hint_ok(#[trigger] packet_hint(d, k)))
    &&& hint_packet(packet_hint(d, 0)) + hint_packet(packet_hint(d, 1)) + hint_packet(
        packet_hint(d, 2),
    ) + hint_packet(packet_hint(d, 3)) + d.subrange(16, 32) == d
}

impl HashVar {
    /// Records one channel draw: the channel digest becomes the hash of
    /// itself, and the drawn digest is the hash of the old digest with a
    /// zero byte appended.
    pub fn draw_digest(&mut self, cs: &mut ConstraintSystem) -> (r: Result<HashVar, Error>)
        requires
            old(self).wf_in(old(cs)),
            old(cs).wf(),
        ensures
            r is Ok <==> !old(cs).finalized,
            r is Err ==> *final(self) == *old(self) && *final(cs) == *old(cs),
            r matches Ok(drawn) ==> {
                &&& final(self).value@ == sha256_of(old(self).value@)
                &&& drawn.value@ == sha256_of(old(self).value@ + seq![0u8])
                &&& final(self).wf_in(&*final(cs))
                &&& drawn.wf_in(&*final(cs))
                &&& final(cs).wf()
                &&& final(cs).finalized == false
                &&& old(cs).memory@.len() <= final(cs).memory@.len()
                &&& forall|i: int|
                    0 <= i < old(cs).memory@.len() ==> #[trigger] final(cs).memory@[i]@ == old(
                        cs,
                    ).memory@[i]@
            },
    {
        if cs.finalized {
            return Err(Error::FinalizedMutation);
        }
        let new_digest = sha256(&self.value);
        let mut extended = clone_bytes(&self.value);
        extended.push(0u8);
        proof {
            assert(extended@ =~= old(self).value@ + seq![0u8]);
        }
        let drawn_digest = sha256(&extended);
        let mut snippet: Vec<u8> = Vec::new();
        emit_op(&mut snippet, OP_DUP);
        emit_op(&mut snippet, OP_SHA256);
        emit_op(&mut snippet, OP_SWAP);
        emit_op(&mut snippet, OP_PUSHBYTES_1);
        emit_op(&mut snippet, OP_PUSHBYTES_0);
        emit_op(&mut snippet, OP_CAT);
        emit_op(&mut snippet, OP_SHA256);
        let mut inputs: Vec<usize> = Vec::new();
        inputs.push(self.variable);
        match cs.insert_script(snippet, inputs) {
            Ok(_) => {},
            Err(e) => {
                proof {
                    assert(false);
                }
                return Err(e);
            },
        }
        let replaced = match HashVar::new_function_output(cs, new_digest) {
            Ok(v) => v,
            Err(e) => {
                proof {
                    assert(false);
                }
                return Err(e);
            },
        };
        let drawn = match HashVar::new_function_output(cs, drawn_digest) {
            Ok(v) => v,
            Err(e) => {
                proof {
                    assert(false);
                }
                return Err(e);
            },
        };
        *self = replaced;
        Ok(drawn)
    }

    /// Unpacks a drawn digest into `n` field lanes through byte-string
    /// hints: each hint is reconstructed into its lane and its
    /// four-byte packet, and the packets, with the trailing remainder,
    /// must concatenate back to the digest.
    pub fn unpack_multi_m31(
        &self,
        cs: &mut ConstraintSystem,
        n: usize,
        hints: &Vec<StrVar>,
    ) -> (r: Result<Vec<M31Var>, Error>)
        requires
            self.wf_in(old(cs)),
            old(cs).wf(),
            1 <= n <= 8,
            hints@.len() == (if n == 8 { 8int } else { n + 1 }),
            forall|k: int| 0 <= k < hints@.len() ==> (#[trigger] hints@[k]).wf_in(old(cs)),
            forall|k: int| 0 <= k < n ==> (#[trigger] hints@[k]).value@.len() <= 4,
        ensures
            r is Ok <==> !old(cs).finalized && (forall|k: int|
                0 <= k < n ==> hint_ok((#[trigger] hints@[k]).value@)) && (n == 8
                || hints@[n as int].value@.len() <= 500) && packets_of(hints@, n as int) + (
            if n == 8 {
                Seq::<u8>::empty()
            } else {
                hints@[n as int].value@
            }) == self.value@,
            r matches Ok(ms) ==> {
                &&& ms@.len() == n
                &&& (forall|k: int| 0 <= k < n ==> (#[trigger] ms@[k]).wf_in(&*final(cs)))
                &&& (forall|k: int| 0 <= k < n ==> is_m31((#[trigger] ms@[k]).value))
                &&& (forall|k: int|
                    0 <= k < n ==> (#[trigger] ms@[k]).value as int == hint_lane(
                        hints@[k].value@,
                    ))
                &&& final(cs).wf()
                &&& final(cs).finalized == false
                &&& old(cs).memory@.len() <= final(cs).memory@.len()
                &&& forall|i: int|
                    0 <= i < old(cs).memory@.len() ==> #[trigger] final(cs).memory@[i]@ == old(
                        cs,
                    ).memory@[i]@
            },
    {
        if cs.finalized {
            return Err(Error::FinalizedMutation);
        }
        let mut ms: Vec<M31Var> = Vec::new();
        let mut packets: Option<StrVar> = None;
        let mut i: usize = 0;
        while i < n
            invariant
                0 <= i <= n,
                n <= 8,
                hints@.len() == (if n == 8 { 8int } else { n + 1 }),
                cs.wf(),
                !cs.finalized,
                ms@.len() == i,
                forall|k: int| 0 <= k < i ==> (#[trigger] ms@[k]).wf_in(&*cs),
                forall|k: int| 0 <= k < i ==> is_m31((#[trigger] ms@[k]).value),
                forall|k: int|
                    0 <= k < i ==> (#[trigger] ms@[k]).value as int == hint_lane(
                        hints@[k].value@,
                    ),
                forall|k: int| 0 <= k < i ==> hint_ok((#[trigger] hints@[k]).value@),
                forall|k: int| 0 <= k < hints@.len() ==> (#[trigger] hints@[k]).wf_in(&*cs),
                forall|k: int| 0 <= k < n ==> (#[trigger] hints@[k]).value@.len() <= 4,
                match packets {
                    Some(p) => p.wf_in(&*cs) && p.value@.len() == 4 * i && p.value@ == packets_of(
                        hints@,
                        i as int,
                    ),
                    None => i == 0,
                },
                forall|j: int|
                    0 <= j < old(cs).memory@.len() ==> #[trigger] cs.memory@[j]@ == old(
                        cs,
                    ).memory@[j]@,
                old(cs).memory@.len() <= cs.memory@.len(),
                self.wf_in(&*cs),
            decreases n - i,
        {
            let hint = &hints[i];
            match hint.len_lessthanorequal(cs, 4) {
                Ok(_) => {},
                Err(e) => {
                    proof {
                        assert(false);
                    }
                    return Err(e);
                },
            }
            let (m, packet) = match reconstruct_for_channel_draw(cs, hint) {
                Ok(p) => p,
                Err(e) => {
                    return Err(e);
                },
            };
            ms.push(m);
            packets = match packets {
                Some(p) => {
                    let joined = match p.concat(cs, &packet) {
                        Ok(j) => j,
                        Err(e) => {
                            proof {
                                assert(false);
                            }
                            return Err(e);
                        },
                    };
                    Some(joined)
                },
                None => Some(packet),
            };
            proof {
                assert(packets_of(hints@, i + 1) == packets_of(hints@, i as int) + hint_packet(
                    hints@[i as int].value@,
                ));
                assert(Seq::<u8>::empty() + hint_packet(hints@[i as int].value@)
                    =~= hint_packet(hints@[i as int].value@));
            }
            i = i + 1;
        }
        let mut all = match packets {
            Some(p) => p,
            None => {
                proof {
                    assert(false);
                }
                return Err(Error::EncodingAmbiguous);
            },
        };
        if n != 8 {
            let tail = &hints[n];
            if all.value.len() > 65000 {
                return Err(Error::EncodingAmbiguous);
            }
            if tail.value.len() > 500 {
                return Err(Error::EncodingAmbiguous);
            }
            all = match all.concat(cs, tail) {
                Ok(j) => j,
                Err(e) => {
                    proof {
                        assert(false);
                    }
                    return Err(e);
                },
            };
        }
        // the packets must spell the digest back
        let digest_str = match self.to_str(cs) {
            Ok(s) => s,
            Err(e) => {
                proof {
                    assert(false);
                }
                return Err(e);
            },
        };
        if !bytes_eq(&digest_str.value, &all.value) {
            return Err(Error::EncodingAmbiguous);
        }
        match digest_str.equalverify(cs, &all) {
            Ok(_) => {},
            Err(e) => {
                proof {
                    assert(false);
                }
                return Err(e);
            },
        }
        Ok(ms)
    }

    /// Records one felt draw: the channel is advanced, the drawn digest
    /// is unpacked into four field lanes through hints, and the lanes
    /// are assembled into a QM31 value.
    #[verifier::rlimit(100)]
    #[verifier::spinoff_prover]
    pub fn draw_felt(&mut self, cs: &mut ConstraintSystem) -> (r: Result<QM31Var, Error>)
        requires
            old(self).wf_in(old(cs)),
            old(cs).wf(),
        ensures
            r is Ok <==> !old(cs).finalized && draw_ok(sha256_of(old(self).value@ + seq![0u8])),
            r matches Ok(q) ==> {
                &&& final(self).value@ == sha256_of(old(self).value@)
                &&& q.first.real.value as int == packet_mag(
                    sha256_of(old(self).value@ + seq![0u8]),
                    0,
                )
                &&& q.first.imag.value as int == packet_mag(
                    sha256_of(old(self).value@ + seq![0u8]),
                    1,
                )
                &&& q.second.real.value as int == packet_mag(
                    sha256_of(old(self).value@ + seq![0u8]),
                    2,
                )
                &&& q.second.imag.value as int == packet_mag(
                    sha256_of(old(self).value@ + seq![0u8]),
                    3,
                )
                &&& q.wf_in(&*final(cs))
                &&& final(self).wf_in(&*final(cs))
                &&& final(cs).wf()
                &&& final(cs).finalized == false
            },
    {
        if cs.finalized {
            return Err(Error::FinalizedMutation);
        }
        let to_extract = self.draw_digest(cs)?;
        let ghost d = to_extract.value@;
        let hints = match build_draw_hints(cs, &to_extract.value) {
            Ok(h) => h,
            Err(e) => {
                proof {
                    assert(!draw_ok(d));
                }
                return Err(e);
            },
        };
        proof {
            lemma_packets_concat(hints@, d);
            lemma_packet_lane(d, 0);
            lemma_packet_lane(d, 1);
            lemma_packet_lane(d, 2);
            lemma_packet_lane(d, 3);
        }
        let ms = match to_extract.unpack_multi_m31(cs, 4, &hints) {
            Ok(ms) => ms,
            Err(e) => {
                proof {
                    if draw_ok(d) {
                        assert(false);
                    }
                }
                return Err(e);
            },
        };
        let q = QM31Var {
            first: CM31Var {
                real: M31Var { variable: ms[0].variable, value: ms[0].value },
                imag: M31Var { variable: ms[1].variable, value: ms[1].value },
            },
            second: CM31Var {
                real: M31Var { variable: ms[2].variable, value: ms[2].value },
                imag: M31Var { variable: ms[3].variable, value: ms[3].value },
            },
        };
        Ok(q)
    }
}

/// Allocates the five draw hints of one digest: the four packet hints
/// and the digest's second half as the remainder.
fn build_draw_hints(cs: &mut ConstraintSystem, d: &Vec<u8>) -> (r: Result<Vec<StrVar>, Error>)
    requires
        old(cs).wf(),
        !old(cs).finalized,
        d@.len() == 32,
    ensures
        r is Ok <==> (forall|k: int| 0 <= k < 4 ==> (#[trigger] packet_hint(d@, k)).len() <= 4),
        r is Err ==> *final(cs) == *old(cs) || (final(cs).wf() && !final(cs).finalized && old(
            cs,
        ).memory@.len() <= final(cs).memory@.len() && (forall|i: int|
            0 <= i < old(cs).memory@.len() ==> #[trigger] final(cs).memory@[i]@ == old(
                cs,
            ).memory@[i]@)),
        r matches Ok(hints) ==> {
            &&& hints@.len() == 5
            &&& (forall|k: int| 0 <= k < 5 ==> (#[trigger] hints@[k]).wf_in(&*final(cs)))
            &&& (forall|k: int| 0 <= k < 4 ==> (#[trigger] hints@[k]).value@.len() <= 4)
            &&& (forall|k: int|
                0 <= k < 4 ==> (#[trigger] hints@[k]).value@ == packet_hint(d@, k))
            &&& hints@[4].value@ == d@.subrange(16, 32)
            &&& final(cs).wf()
            &&& !final(cs).finalized
            &&& old(cs).memory@.len() <= final(cs).memory@.len()
            &&& forall|i: int|
                0 <= i < old(cs).memory@.len() ==> #[trigger] final(cs).memory@[i]@ == old(
                    cs,
                ).memory@[i]@
        },
{
    let mut hints: Vec<StrVar> = Vec::new();
    let mut i: usize = 0;
    while i < 4
        invariant
            0 <= i <= 4,
            cs.wf(),
            !cs.finalized,
            d@.len() == 32,
            hints@.len() == i,
            forall|k: int| 0 <= k < i ==> (#[trigger] hints@[k]).wf_in(&*cs),
            forall|k: int| 0 <= k < i ==> (#[trigger] hints@[k]).value@.len() <= 4,
            forall|k: int| 0 <= k < i ==> (#[trigger] hints@[k]).value@ == packet_hint(d@, k),
            forall|j: int|
                0 <= j < old(cs).memory@.len() ==> #[trigger] cs.memory@[j]@ == old(
                    cs,
                ).memory@[j]@,
            old(cs).memory@.len() <= cs.memory@.len(),
        decreases 4 - i,
    {
        let packet_bytes = match build_packet_hint(d, i) {
            Ok(b) => b,
            Err(e) => {
                return Err(e);
            },
        };
        let hint = match StrVar::new_hint(cs, packet_bytes) {
            Ok(h) => h,
            Err(e) => {
                proof {
                    assert(false);
                }
                return Err(e);
            },
        };
        hints.push(hint);
        i = i + 1;
    }
    let mut tail_bytes: Vec<u8> = Vec::new();
    let mut j: usize = 16;
    while j < 32
        invariant
            16 <= j <= 32,
            d@.len() == 32,
            tail_bytes@.len() == j - 16,
            tail_bytes@ == d@.subrange(16, j as int),
        decreases 32 - j,
    {
        tail_bytes.push(d[j]);
        proof {
            assert(tail_bytes@ =~= d@.subrange(16, j + 1));
        }
        j = j + 1;
    }
    let tail = match StrVar::new_hint(cs, tail_bytes) {
        Ok(h) => h,
        Err(e) => {
            proof {
                assert(false);
            }
            return Err(e);
        },
    };
    hints.push(tail);
    proof {
        assert forall|k: int| 0 <= k < 4 implies (#[trigger] packet_hint(d@, k)).len() <= 4 by {
            assert(hints@[k].value@ == packet_hint(d@, k));
            assert(hints@[k].value@.len() <= 4);
        }
    }
    Ok(hints)
}

/// The hint bytes the draw supplies for the digest's `i`-th packet: the
/// packet's word is split into a magnitude and a sign, and encoded in
/// the stack machine's signed form, the negative zero as its one byte.
fn build_packet_hint(d: &Vec<u8>, i: usize) -> (r: Result<Vec<u8>, Error>)
    requires
        d@.len() == 32,
        i < 4,
    ensures
        r matches Ok(b) ==> b@ == packet_hint(d@, i as int) && b@.len() <= 4,
        r is Err ==> packet_hint(d@, i as int).len() > 4,
{
    let b0 = d[4 * i];
    let b1 = d[4 * i + 1];
    let b2 = d[4 * i + 2];
    let b3 = d[4 * i + 3];
    let w: u32 = (b0 as u32) + 256 * (b1 as u32) + 65536 * (b2 as u32) + 16777216 * (b3 as u32);
    let negv = w >= 0x8000_0000;
    let mag = w & 0x7fff_ffff;
    proof {
        assert(w & 0x7fff_ffff < 0x8000_0000) by (bit_vector);
        assert(w as int == packet_word(d@, i as int));
        assert((w & 0x7fff_ffff) as int == w as int % 0x8000_0000) by (bit_vector);
        assert(mag as int == packet_mag(d@, i as int));
        assert(negv == packet_neg(d@, i as int));
    }
    let packet_bytes: Vec<u8> = if mag == 0 && negv {
        let mut v: Vec<u8> = Vec::new();
        v.push(0x80);
        v
    } else {
        let num: i64 = if negv {
            -(mag as i64)
        } else {
            mag as i64
        };
        scriptnum_encode(num)
    };
    proof {
        if mag == 0 && negv {
            assert(packet_bytes@ =~= packet_hint(d@, i as int));
        } else {
            assert(packet_bytes@ == packet_hint(d@, i as int));
        }
    }
    if packet_bytes.len() > 4 {
        return Err(Error::EncodingAmbiguous);
    }
    Ok(packet_bytes)
}

/// Whether two byte strings hold the same bytes.
pub fn bytes_eq(a: &Vec<u8>, b: &Vec<u8>) -> (r: bool)
    ensures
        r == (a@ == b@),
{
    if a.len() != b.len() {
        proof {
            assert(a@ != b@);
        }
        return false;
    }
    let mut i: usize = 0;
    while i < a.len()
        invariant
            0 <= i <= a@.len(),
            a@.len() == b@.len(),
            forall|k: int| 0 <= k < i ==> #[trigger] a@[k] == b@[k],
        decreases a@.len() - i,
    {
        if a[i] != b[i] {
            return false;
        }
        i = i + 1;
    }
    proof {
        assert(a@ =~= b@);
    }
    true
}

/// Reconstructs one channel hint: the field lane it stands for, and the
/// four-byte packet it occupies in the drawn digest.  The emitted
/// snippet performs the same canonicalisation on the stack; the sole
/// byte 0x80 is the negative zero and maps to the zero lane.
pub fn reconstruct_for_channel_draw(cs: &mut ConstraintSystem, hint: &StrVar) -> (r: Result<
    (M31Var, StrVar),
    Error,
>)
    requires
        hint.wf_in(old(cs)),
        old(cs).wf(),
        hint.value@.len() <= 4,
    ensures
        r is Ok <==> !old(cs).finalized && hint_ok(hint.value@),
        r matches Ok(p) ==> {
            &&& is_m31(p.0.value)
            &&& p.0.value as int == hint_lane(hint.value@)
            &&& p.1.value@ == hint_packet(hint.value@)
            &&& p.1.value@.len() == 4
            &&& p.0.wf_in(&*final(cs))
            &&& p.1.wf_in(&*final(cs))
            &&& final(cs).wf()
            &&& final(cs).finalized == false
            &&& old(cs).memory@.len() <= final(cs).memory@.len()
            &&& forall|i: int|
                0 <= i < old(cs).memory@.len() ==> #[trigger] final(cs).memory@[i]@ == old(
                    cs,
                ).memory@[i]@
        },
{
    if cs.finalized {
        return Err(Error::FinalizedMutation);
    }
    if hint.value.len() == 1 && hint.value[0] == 0x80 {
        // the sole byte 0x80 is the negative zero: it canonicalises to
        // the four-byte packet with only the sign bit set
        let mut p: Vec<u8> = Vec::new();
        p.push(0x00);
        p.push(0x00);
        p.push(0x00);
        p.push(0x80);
        let snippet = reconstruct_snippet();
        let mut inputs: Vec<usize> = Vec::new();
        inputs.push(hint.variable);
        match cs.insert_script(snippet, inputs) {
            Ok(_) => {},
            Err(e) => {
                proof {
                    assert(false);
                }
                return Err(e);
            },
        }
        let packet_var = match StrVar::new_function_output(cs, p) {
            Ok(v) => v,
            Err(e) => {
                proof {
                    assert(false);
                }
                return Err(e);
            },
        };
        let m_var = match M31Var::new_function_output(cs, 0) {
            Ok(v) => v,
            Err(e) => {
                proof {
                    assert(false);
                }
                return Err(e);
            },
        };
        proof {
            assert(hint.value@ =~= seq![0x80u8]);
            assert(hint.value@.update(0int, 0u8) =~= seq![0u8]);
            assert(crate::script::mag_value(seq![0u8]) == 0) by {
                reveal_with_fuel(crate::script::mag_value, 3);
                assert(seq![0u8].subrange(1, 1) =~= Seq::<u8>::empty());
            }
        }
        return Ok((m_var, packet_var));
    }
    let num = scriptnum_decode(&hint.value);
    proof {
        lemma_short_scriptnum_bound(hint.value@);
    }
    let negv = num < 0;
    let mag: u32 = if negv {
        (-num) as u32
    } else {
        num as u32
    };
    if mag >= M31_MODULUS {
        return Err(Error::EncodingAmbiguous);
    }
    let abs_str = scriptnum_encode(if negv {
        -num
    } else {
        num
    });
    let packet: Vec<u8> = if abs_str.len() < 4 {
        let mut p = clone_bytes(&hint.value);
        if p.len() < 2 {
            p.push(0x00);
            p.push(0x00);
        }
        if p.len() < 3 {
            p.push(0x00);
        }
        if p.len() > 3 {
            return Err(Error::EncodingAmbiguous);
        }
        if negv {
            p.push(0x80);
        } else {
            p.push(0x00);
        }
        p
    } else {
        if hint.value.len() != 4 {
            return Err(Error::EncodingAmbiguous);
        }
        clone_bytes(&hint.value)
    };
    if packet.len() != 4 {
        return Err(Error::EncodingAmbiguous);
    }
    let snippet = reconstruct_snippet();
    let mut inputs: Vec<usize> = Vec::new();
    inputs.push(hint.variable);
    match cs.insert_script(snippet, inputs) {
        Ok(_) => {},
        Err(e) => {
            proof {
                assert(false);
            }
            return Err(e);
        },
    }
    let packet_var = match StrVar::new_function_output(cs, packet) {
        Ok(v) => v,
        Err(e) => {
            proof {
                assert(false);
            }
            return Err(e);
        },
    };
    let m_var = match M31Var::new_function_output(cs, mag) {
        Ok(v) => v,
        Err(e) => {
            proof {
                assert(false);
            }
            return Err(e);
        },
    };
    Ok((m_var, packet_var))
}

/// The bytes of the hint canonicalisation snippet.
pub open spec fn reconstruct_bytes() -> Seq<u8> {
    seq![
        OP_DUP,
        OP_PUSHBYTES_1,
        OP_LEFT,
        OP_EQUAL,
        OP_IF,
        OP_DROP,
        OP_PUSHBYTES_4,
        OP_PUSHBYTES_0,
        OP_PUSHBYTES_0,
        OP_PUSHBYTES_0,
        OP_LEFT,
        OP_PUSHBYTES_0,
        OP_TOALTSTACK,
        OP_ELSE,
        OP_DUP,
        OP_ABS,
        OP_DUP,
        OP_TOALTSTACK,
        OP_SIZE,
    ] + crate::script::push_int_bytes(4) + seq![
        OP_LESSTHAN,
        OP_IF,
        OP_DUP,
        OP_ROT,
        OP_EQUAL,
        OP_TOALTSTACK,
        OP_SIZE,
    ] + crate::script::push_int_bytes(2) + seq![
        OP_LESSTHAN,
        OP_IF,
        OP_PUSHBYTES_2,
        OP_PUSHBYTES_0,
        OP_PUSHBYTES_0,
        OP_CAT,
        OP_ENDIF,
        OP_SIZE,
    ] + crate::script::push_int_bytes(3) + seq![
        OP_LESSTHAN,
        OP_IF,
        OP_PUSHBYTES_1,
        OP_PUSHBYTES_0,
        OP_CAT,
        OP_ENDIF,
        OP_FROMALTSTACK,
        OP_IF,
        OP_PUSHBYTES_1,
        OP_PUSHBYTES_0,
        OP_ELSE,
        OP_PUSHBYTES_1,
        OP_LEFT,
        OP_ENDIF,
        OP_CAT,
        OP_ELSE,
        OP_DROP,
        OP_ENDIF,
        OP_FROMALTSTACK,
        OP_ENDIF,
    ]
}

/// The snippet that canonicalises a channel hint on the stack: it leaves
/// the four-byte packet and, on the auxiliary stack, the absolute lane
/// value, handling the negative-zero byte specially.
fn reconstruct_snippet() -> (r: Vec<u8>)
    ensures
        r@ == reconstruct_bytes(),
{
    let mut s: Vec<u8> = Vec::new();
    emit_op(&mut s, OP_DUP);
    emit_op(&mut s, OP_PUSHBYTES_1);
    emit_op(&mut s, OP_LEFT);
    emit_op(&mut s, OP_EQUAL);
    emit_op(&mut s, OP_IF);
    emit_op(&mut s, OP_DROP);
    emit_op(&mut s, OP_PUSHBYTES_4);
    emit_op(&mut s, OP_PUSHBYTES_0);
    emit_op(&mut s, OP_PUSHBYTES_0);
    emit_op(&mut s, OP_PUSHBYTES_0);
    emit_op(&mut s, OP_LEFT);
    emit_op(&mut s, OP_PUSHBYTES_0);
    emit_op(&mut s, OP_TOALTSTACK);
    emit_op(&mut s, OP_ELSE);
    emit_op(&mut s, OP_DUP);
    emit_op(&mut s, OP_ABS);
    emit_op(&mut s, OP_DUP);
    emit_op(&mut s, OP_TOALTSTACK);
    emit_op(&mut s, OP_SIZE);
    crate::script::emit_push_int(&mut s, 4);
    emit_op(&mut s, OP_LESSTHAN);
    emit_op(&mut s, OP_IF);
    emit_op(&mut s, OP_DUP);
    emit_op(&mut s, OP_ROT);
    emit_op(&mut s, OP_EQUAL);
    emit_op(&mut s, OP_TOALTSTACK);
    emit_op(&mut s, OP_SIZE);
    crate::script::emit_push_int(&mut s, 2);
    emit_op(&mut s, OP_LESSTHAN);
    emit_op(&mut s, OP_IF);
    emit_op(&mut s, OP_PUSHBYTES_2);
    emit_op(&mut s, OP_PUSHBYTES_0);
    emit_op(&mut s, OP_PUSHBYTES_0);
    emit_op(&mut s, OP_CAT);
    emit_op(&mut s, OP_ENDIF);
    emit_op(&mut s, OP_SIZE);
    crate::script::emit_push_int(&mut s, 3);
    emit_op(&mut s, OP_LESSTHAN);
    emit_op(&mut s, OP_IF);
    emit_op(&mut s, OP_PUSHBYTES_1);
    emit_op(&mut s, OP_PUSHBYTES_0);
    emit_op(&mut s, OP_CAT);
    emit_op(&mut s, OP_ENDIF);
    emit_op(&mut s, OP_FROMALTSTACK);
    emit_op(&mut s, OP_IF);
    emit_op(&mut s, OP_PUSHBYTES_1);
    emit_op(&mut s, OP_PUSHBYTES_0);
    emit_op(&mut s, OP_ELSE);
    emit_op(&mut s, OP_PUSHBYTES_1);
    emit_op(&mut s, OP_LEFT);
    emit_op(&mut s, OP_ENDIF);
    emit_op(&mut s, OP_CAT);
    emit_op(&mut s, OP_ELSE);
    emit_op(&mut s, OP_DROP);
    emit_op(&mut s, OP_ENDIF);
    emit_op(&mut s, OP_FROMALTSTACK);
    emit_op(&mut s, OP_ENDIF);
    proof {
        assert(s@ =~= reconstruct_bytes());
    }
    s
}

} // verus!
