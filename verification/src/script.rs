use vstd::prelude::*;

verus! {

// The opcode bytes of the stack machine that the emitted programs use.
pub const OP_PUSHBYTES_0: u8 = 0x00;
pub const OP_PUSHBYTES_1: u8 = 0x01;
pub const OP_PUSHBYTES_2: u8 = 0x02;
pub const OP_PUSHBYTES_4: u8 = 0x04;
pub const OP_PUSHDATA1: u8 = 0x4c;
pub const OP_PUSHDATA2: u8 = 0x4d;
pub const OP_1NEGATE: u8 = 0x4f;
pub const OP_TRUE: u8 = 0x51;
pub const OP_IF: u8 = 0x63;
pub const OP_ELSE: u8 = 0x67;
pub const OP_ENDIF: u8 = 0x68;
pub const OP_VERIFY: u8 = 0x69;
pub const OP_TOALTSTACK: u8 = 0x6b;
pub const OP_FROMALTSTACK: u8 = 0x6c;
pub const OP_2DROP: u8 = 0x6d;
pub const OP_2DUP: u8 = 0x6e;
pub const OP_2OVER: u8 = 0x70;
pub const OP_2SWAP: u8 = 0x72;
pub const OP_DEPTH: u8 = 0x74;
pub const OP_DROP: u8 = 0x75;
pub const OP_DUP: u8 = 0x76;
pub const OP_OVER: u8 = 0x78;
pub const OP_PICK: u8 = 0x79;
pub const OP_ROLL: u8 = 0x7a;
pub const OP_ROT: u8 = 0x7b;
pub const OP_SWAP: u8 = 0x7c;
pub const OP_CAT: u8 = 0x7e;
// The byte 0x80, pushed alone, is the negative-zero data byte.
pub const OP_LEFT: u8 = 0x80;
pub const OP_SIZE: u8 = 0x82;
pub const OP_AND: u8 = 0x84;
pub const OP_OR: u8 = 0x85;
pub const OP_EQUAL: u8 = 0x87;
pub const OP_EQUALVERIFY: u8 = 0x88;
pub const OP_1SUB: u8 = 0x8c;
pub const OP_ABS: u8 = 0x90;
pub const OP_NOT: u8 = 0x91;
pub const OP_0NOTEQUAL: u8 = 0x92;
pub const OP_ADD: u8 = 0x93;
pub const OP_SUB: u8 = 0x94;
pub const OP_LESSTHAN: u8 = 0x9f;
pub const OP_LESSTHANOREQUAL: u8 = 0xa1;
pub const OP_GREATERTHANOREQUAL: u8 = 0xa2;
pub const OP_SHA256: u8 = 0xa8;

/// The little-endian magnitude bytes of a nonnegative integer, least
/// significant byte first; zero has no bytes.
pub open spec fn mag_bytes(m: nat) -> Seq<u8>
    decreases m,
{
    if m == 0 {
        seq![]
    } else {
        seq![(m % 256) as u8] + mag_bytes(m / 256)
    }
}

/// The minimally encoded signed integer form of the stack machine: the
/// magnitude little-endian, the sign carried by the high bit of the final
/// byte, with an extra byte appended when the magnitude's own top byte
/// already uses that bit.
pub open spec fn scriptnum_bytes(v: int) -> Seq<u8> {
    if v == 0 {
        seq![]
    } else {
        let m = mag_bytes(if v < 0 { (-v) as nat } else { v as nat });
        if m.last() >= 0x80 {
            m + seq![if v < 0 { 0x80u8 } else { 0x00u8 }]
        } else if v < 0 {
            m.update(m.len() - 1, (m.last() + 0x80) as u8)
        } else {
            m
        }
    }
}

/// The signed integer a byte string stands for under the encoding above
/// (also defined on non-minimal encodings, as the executor reads them):
/// the magnitude is read with the final byte's high bit cleared, and that
/// bit carries the sign.
pub open spec fn scriptnum_value(s: Seq<u8>) -> int {
    if s.len() == 0 {
        0
    } else if s.last() >= 0x80 {
        -mag_value(s.update(s.len() - 1, (s.last() - 0x80) as u8))
    } else {
        mag_value(s)
    }
}

/// Encodes a signed integer in the stack machine's minimal form.
pub fn scriptnum_encode(v: i64) -> (r: Vec<u8>)
    requires
        -0x7fff_ffff_ffff_ffff <= v,
    ensures
        r@ == scriptnum_bytes(v as int),
{
    let mut out: Vec<u8> = Vec::new();
    if v == 0 {
        assert(out@ =~= scriptnum_bytes(0));
        return out;
    }
    let neg = v < 0;
    let mut m: u64 = if neg {
        (-v) as u64
    } else {
        v as u64
    };
    let ghost m0 = m as nat;
    while m > 0
        invariant
            out@ + mag_bytes(m as nat) =~= mag_bytes(m0),
            m <= m0,
            m0 > 0,
            m == 0 ==> out@.len() > 0,
        decreases m,
    {
        let b = (m % 256) as u8;
        out.push(b);
        m = m / 256;
        proof {
            assert(out@ + mag_bytes(m as nat) =~= mag_bytes(m0));
        }
    }
    proof {
        assert(out@ =~= mag_bytes(m0));
    }
    let last = out[out.len() - 1];
    if last >= 0x80 {
        if neg {
            out.push(0x80);
        } else {
            out.push(0x00);
        }
        proof {
            assert(out@ =~= scriptnum_bytes(v as int));
        }
    } else if neg {
        let n = out.len();
        out.set(n - 1, last + 0x80);
        proof {
            assert(out@ =~= scriptnum_bytes(v as int));
        }
    }
    out
}

/// Decodes a byte string as the stack machine's signed integer form.
pub fn scriptnum_decode(s: &Vec<u8>) -> (r: i64)
    requires
        s@.len() <= 7,
    ensures
        r == scriptnum_value(s@),
{
    let n = s.len();
    if n == 0 {
        return 0;
    }
    let last = s[n - 1];
    let neg = last >= 0x80;
    let masked: u8 = if neg {
        last - 0x80
    } else {
        last
    };
    let ghost cleared = s@.update(n - 1, masked);
    let mut acc: i64 = masked as i64;
    proof {
        let unit = cleared.subrange(n - 1, n as int);
        assert(unit =~= seq![masked]);
        reveal_with_fuel(mag_value, 3);
        assert(unit.subrange(1, 1) =~= Seq::<u8>::empty());
        assert(mag_value(unit) == masked);
    }
    let mut i = n - 1;
    while i > 0
        invariant
            0 <= i <= n - 1,
            n == s@.len(),
            n <= 7,
            cleared == s@.update(n - 1, masked),
            acc == mag_value(cleared.subrange(i as int, n as int)),
            0 <= acc,
        decreases i,
    {
        i = i - 1;
        proof {
            let tail = cleared.subrange(i + 1, n as int);
            lemma_mag_value_bound(tail);
            lemma_pow_256_mono(tail.len(), 6);
            assert(pow_256(6) == 0x1_0000_0000_0000) by {
                reveal_with_fuel(pow_256, 7);
            }
            let cur = cleared.subrange(i as int, n as int);
            assert(cur[0] == s@[i as int]);
            assert(cur.subrange(1, cur.len() as int) =~= tail);
            lemma_mag_value_bound(cur);
        }
        acc = (s[i] as i64) + 256 * acc;
    }
    proof {
        assert(cleared.subrange(0, n as int) =~= cleared);
    }
    if neg {
        -acc
    } else {
        proof {
            assert(cleared =~= s@);
        }
        acc
    }
}

/// 256 to a power is at least one.
pub proof fn lemma_pow_256_pos(k: nat)
    ensures
        pow_256(k) >= 1,
    decreases k,
{
    if k > 0 {
        lemma_pow_256_pos((k - 1) as nat);
    }
}

/// 256 to a power grows with the exponent.
pub proof fn lemma_pow_256_mono(a: nat, b: nat)
    requires
        a <= b,
    ensures
        pow_256(a) <= pow_256(b),
    decreases b,
{
    if a < b {
        lemma_pow_256_mono(a, (b - 1) as nat);
        lemma_pow_256_pos((b - 1) as nat);
    }
}

/// The magnitude of a byte string is below 256 to its length.
pub proof fn lemma_mag_value_bound(s: Seq<u8>)
    ensures
        0 <= mag_value(s) < pow_256(s.len()),
    decreases s.len(),
{
    if s.len() > 0 {
        lemma_mag_value_bound(s.subrange(1, s.len() as int));
        assert(256 * mag_value(s.subrange(1, s.len() as int)) <= 256 * (pow_256((s.len() - 1) as nat) - 1))
            by (nonlinear_arith)
            requires
                mag_value(s.subrange(1, s.len() as int)) <= pow_256((s.len() - 1) as nat) - 1,
        ;
    }
}

/// Appends one opcode byte to a script.
pub fn emit_op(script: &mut Vec<u8>, op: u8)
    ensures
        final(script)@ == old(script)@ + seq![op],
{
    script.push(op);
}

/// The bytes that push the number `v` onto the stack: a dedicated opcode
/// for -1 through 16, otherwise a length-prefixed minimal encoding.
pub open spec fn push_int_bytes(v: int) -> Seq<u8> {
    if v == 0 {
        seq![OP_PUSHBYTES_0]
    } else if 1 <= v <= 16 {
        seq![(0x50 + v) as u8]
    } else if v == -1 {
        seq![OP_1NEGATE]
    } else {
        seq![scriptnum_bytes(v).len() as u8] + scriptnum_bytes(v)
    }
}

/// The length of the minimal encoding never exceeds one byte per 7 bits.
proof fn lemma_mag_bytes_len(m: nat, k: nat)
    requires
        m < pow_256(k),
    ensures
        mag_bytes(m).len() <= k,
    decreases m,
{
    if m > 0 {
        assert(k > 0);
        assert(m / 256 < pow_256((k - 1) as nat)) by (nonlinear_arith)
            requires
                m < pow_256(k) && k > 0 && pow_256(k) == 256 * pow_256((k - 1) as nat),
        ;
        lemma_mag_bytes_len(m / 256, (k - 1) as nat);
    }
}

/// 256 to the power k.
pub open spec fn pow_256(k: nat) -> int
    decreases k,
{
    if k == 0 {
        1
    } else {
        256 * pow_256((k - 1) as nat)
    }
}

/// Emits a push of the number `v`.
pub fn emit_push_int(script: &mut Vec<u8>, v: i64)
    requires
        -0x7fff_ffff_ffff_ffff <= v,
    ensures
        final(script)@ == old(script)@ + push_int_bytes(v as int),
{
    if v == 0 {
        script.push(OP_PUSHBYTES_0);
    } else if 1 <= v && v <= 16 {
        script.push(0x50 + (v as u8));
    } else if v == -1 {
        script.push(OP_1NEGATE);
    } else {
        let bytes = scriptnum_encode(v);
        proof {
            let m = if v < 0 {
                (-v) as nat
            } else {
                v as nat
            };
            assert(m < pow_256(8)) by {
                reveal_with_fuel(pow_256, 9);
            }
            lemma_mag_bytes_len(m, 8);
            assert(scriptnum_bytes(v as int).len() <= 9);
        }
        script.push(bytes.len() as u8);
        let mut j: usize = 0;
        while j < bytes.len()
            invariant
                0 <= j <= bytes@.len(),
                script@ == old(script)@ + seq![bytes@.len() as u8] + bytes@.subrange(0, j as int),
            decreases bytes@.len() - j,
        {
            script.push(bytes[j]);
            proof {
                assert(bytes@.subrange(0, j + 1) =~= bytes@.subrange(0, j as int) + seq![bytes@[j as int]]);
                assert(script@ =~= old(script)@ + seq![bytes@.len() as u8] + bytes@.subrange(0, j + 1));
            }
            j = j + 1;
        }
        proof {
            assert(bytes@.subrange(0, bytes@.len() as int) =~= bytes@);
            assert(script@ =~= old(script)@ + push_int_bytes(v as int));
        }
    }
}

/// The bytes that push the byte string `data` onto the stack.
pub open spec fn push_bytes_bytes(data: Seq<u8>) -> Seq<u8> {
    if data.len() == 0 {
        seq![OP_PUSHBYTES_0]
    } else if data.len() <= 75 {
        seq![data.len() as u8] + data
    } else if data.len() <= 255 {
        seq![OP_PUSHDATA1, data.len() as u8] + data
    } else {
        seq![OP_PUSHDATA2, (data.len() % 256) as u8, (data.len() / 256) as u8] + data
    }
}

/// Emits a push of the byte string `data`.
pub fn emit_push_bytes(script: &mut Vec<u8>, data: &Vec<u8>)
    requires
        data@.len() <= 0xffff,
    ensures
        final(script)@ == old(script)@ + push_bytes_bytes(data@),
{
    if data.len() == 0 {
        script.push(OP_PUSHBYTES_0);
        proof {
            assert(script@ =~= old(script)@ + push_bytes_bytes(data@));
        }
        return ;
    }
    let ghost prefix_done: Seq<u8> = if data@.len() <= 75 {
        seq![data@.len() as u8]
    } else if data@.len() <= 255 {
        seq![OP_PUSHDATA1, data@.len() as u8]
    } else {
        seq![OP_PUSHDATA2, (data@.len() % 256) as u8, (data@.len() / 256) as u8]
    };
    if data.len() <= 75 {
        script.push(data.len() as u8);
    } else if data.len() <= 255 {
        script.push(OP_PUSHDATA1);
        script.push(data.len() as u8);
    } else {
        script.push(OP_PUSHDATA2);
        script.push((data.len() % 256) as u8);
        script.push((data.len() / 256) as u8);
    }
    proof {
        assert(script@ =~= old(script)@ + prefix_done);
    }
    let mut j: usize = 0;
    while j < data.len()
        invariant
            0 <= j <= data@.len(),
            script@ == old(script)@ + prefix_done + data@.subrange(0, j as int),
        decreases data@.len() - j,
    {
        script.push(data[j]);
        proof {
            assert(data@.subrange(0, j + 1) =~= data@.subrange(0, j as int) + seq![data@[j as int]]);
            assert(script@ =~= old(script)@ + prefix_done + data@.subrange(0, j + 1));
        }
        j = j + 1;
    }
    proof {
        assert(data@.subrange(0, data@.len() as int) =~= data@);
        assert(script@ =~= old(script)@ + push_bytes_bytes(data@));
    }
}

/// Appends a whole snippet to a script.
pub fn emit_all(script: &mut Vec<u8>, snippet: &Vec<u8>)
    ensures
        final(script)@ == old(script)@ + snippet@,
{
    let mut j: usize = 0;
    while j < snippet.len()
        invariant
            0 <= j <= snippet@.len(),
            script@ == old(script)@ + snippet@.subrange(0, j as int),
        decreases snippet@.len() - j,
    {
        script.push(snippet[j]);
        proof {
            assert(snippet@.subrange(0, j + 1) =~= snippet@.subrange(0, j as int) + seq![
                snippet@[j as int],
            ]);
            assert(script@ =~= old(script)@ + snippet@.subrange(0, j + 1));
        }
        j = j + 1;
    }
    proof {
        assert(snippet@.subrange(0, snippet@.len() as int) =~= snippet@);
    }
}

/// The round trip of the value encoding: decoding the minimal encoding of
/// any value gives the value back.
pub proof fn lemma_scriptnum_round_trip(v: int)
    requires
        -0x8000_0000_0000_0000 < v < 0x8000_0000_0000_0000,
    ensures
        scriptnum_value(scriptnum_bytes(v)) == v,
{
    if v != 0 {
        let m = if v < 0 {
            (-v) as nat
        } else {
            v as nat
        };
        lemma_mag_bytes_value(m);
        let mb = mag_bytes(m);
        assert(mb.len() > 0);
        if mb.last() >= 0x80 {
            let sign: u8 = if v < 0 {
                0x80u8
            } else {
                0x00u8
            };
            let ext = mb + seq![sign];
            lemma_mag_ext(mb, 0x00u8);
            if v < 0 {
                assert(ext.update(ext.len() - 1, 0x00u8) =~= mb + seq![0x00u8]);
            } else {
                assert(ext.last() == 0x00u8);
            }
            assert(mag_value(mb + seq![0x00u8]) == mag_value(mb));
        } else {
            if v < 0 {
                let upd = mb.update(mb.len() - 1, (mb.last() + 0x80) as u8);
                assert(upd.last() == mb.last() + 0x80);
                assert(upd.update(upd.len() - 1, (upd.last() - 0x80) as u8) =~= mb);
            }
        }
    }
}

/// The value of raw magnitude bytes, with no sign interpretation.
pub open spec fn mag_value(s: Seq<u8>) -> int
    decreases s.len(),
{
    if s.len() == 0 {
        0
    } else {
        s[0] + 256 * mag_value(s.subrange(1, s.len() as int))
    }
}

/// mag_bytes is the inverse of mag_value.
pub proof fn lemma_mag_bytes_value(m: nat)
    ensures
        mag_value(mag_bytes(m)) == m,
    decreases m,
{
    if m == 0 {
    } else {
        lemma_mag_bytes_value(m / 256);
        let s = mag_bytes(m);
        assert(s[0] == m % 256);
        assert(s.subrange(1, s.len() as int) =~= mag_bytes(m / 256));
    }
}

/// Appending a byte adds its value at the top magnitude position.
proof fn lemma_mag_ext(s: Seq<u8>, b: u8)
    ensures
        mag_value(s + seq![b]) == mag_value(s) + pow_256(s.len()) * b,
    decreases s.len(),
{
    let ext = s + seq![b];
    if s.len() == 0 {
        assert(ext =~= seq![b]);
        reveal_with_fuel(mag_value, 3);
        assert(ext.subrange(1, 1) =~= Seq::<u8>::empty());
        assert(mag_value(ext) == b as int + 256 * mag_value(ext.subrange(1, 1)));
        assert(pow_256(0) == 1);
    } else {
        lemma_mag_ext(s.subrange(1, s.len() as int), b);
        assert(ext.subrange(1, ext.len() as int) =~= s.subrange(1, s.len() as int) + seq![b]);
        assert(256 * (mag_value(s.subrange(1, s.len() as int)) + pow_256((s.len() - 1) as nat) * b)
            == 256 * mag_value(s.subrange(1, s.len() as int)) + 256 * (pow_256((s.len() - 1) as nat)
            * b)) by (nonlinear_arith);
        assert(256 * (pow_256((s.len() - 1) as nat) * b) == pow_256(s.len()) * b)
            by (nonlinear_arith)
            requires
                pow_256(s.len()) == 256 * pow_256((s.len() - 1) as nat),
        ;
    }
}

} // verus!
