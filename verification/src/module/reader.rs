//! Reading primitives of the WebAssembly binary format, and the signed
//! LEB128 encoder used to write constant expressions back.
//!
//! The variable-length integer readers and the float reader call
//! `wasmparser::BinaryReader`; their contracts state the LEB128 and
//! little-endian decodings that its source implements.
use vstd::arithmetic::div_mod::lemma_fundamental_div_mod_converse;
use vstd::prelude::*;

use super::value_type::ValType;

verus! {

/// Why reading a value out of a byte sequence failed.
#[derive(Debug, Clone, Copy, PartialEq, Eq, Structural)]
pub enum DecodeError {
    /// The bytes end too early or do not encode what was being read.
    Malformed,
    /// An instruction opcode this virtual machine does not decode.
    UnsupportedOpcode(u32),
    /// A block type index that does not fit in 32 bits.
    BlockTypeOutOfRange,
}

/// Unsigned value of little-endian base-128 digits (the low 7 bits of each byte).
pub open spec fn uleb_value(s: Seq<u8>) -> nat
    decreases s.len(),
{
    if s.len() == 0 {
        0
    } else {
        (s[0] % 128) as nat + 128 * uleb_value(s.drop_first())
    }
}

/// Two's-complement value of little-endian base-128 digits: the top digit's
/// bit 6 is the sign.
pub open spec fn sleb_value(s: Seq<u8>) -> int
    decreases s.len(),
{
    if s.len() == 0 {
        0
    } else if s.len() == 1 {
        if s[0] % 128 >= 64 {
            s[0] % 128 - 128
        } else {
            (s[0] % 128) as int
        }
    } else {
        (s[0] % 128) as int + 128 * sleb_value(s.drop_first())
    }
}

/// Number of bytes of the LEB128 number that starts `s`: up to and including
/// the first byte whose continuation bit (bit 7) is clear.
pub open spec fn leb_len(s: Seq<u8>) -> Option<nat>
    decreases s.len(),
{
    if s.len() == 0 {
        None
    } else if s[0] < 128 {
        Some(1)
    } else {
        match leb_len(s.drop_first()) {
            Some(n) => Some(n + 1),
            None => None,
        }
    }
}

/// `read_var_u32`: an unsigned LEB128 number of at most 5 bytes whose value fits in 32 bits.
pub open spec fn spec_read_var_u32(s: Seq<u8>) -> Option<(u32, nat)> {
    match leb_len(s) {
        Some(n) => if n <= 5 && uleb_value(s.take(n as int)) <= u32::MAX {
            Some((uleb_value(s.take(n as int)) as u32, n))
        } else {
            None
        },
        None => None,
    }
}

/// `read_var_i32`: a signed LEB128 number of at most 5 bytes whose value fits in 32 bits.
pub open spec fn spec_read_var_i32(s: Seq<u8>) -> Option<(i32, nat)> {
    match leb_len(s) {
        Some(n) => if n <= 5 && i32::MIN <= sleb_value(s.take(n as int)) <= i32::MAX {
            Some((sleb_value(s.take(n as int)) as i32, n))
        } else {
            None
        },
        None => None,
    }
}

/// `read_var_s33`: a signed LEB128 number of at most 5 bytes whose value fits in 33 bits.
pub open spec fn spec_read_var_s33(s: Seq<u8>) -> Option<(i64, nat)> {
    match leb_len(s) {
        Some(n) => if n <= 5 && -0x1_0000_0000 <= sleb_value(s.take(n as int)) < 0x1_0000_0000 {
            Some((sleb_value(s.take(n as int)) as i64, n))
        } else {
            None
        },
        None => None,
    }
}

/// Unsigned value of little-endian bytes.
pub open spec fn le_value(s: Seq<u8>) -> nat
    decreases s.len(),
{
    if s.len() == 0 {
        0
    } else {
        s[0] as nat + 256 * le_value(s.drop_first())
    }
}

/// `read_u64` (and `read_f64`, as raw bits): eight little-endian bytes.
pub open spec fn spec_read_u64_le(s: Seq<u8>) -> Option<(u64, nat)> {
    if s.len() >= 8 {
        Some((le_value(s.take(8)) as u64, 8))
    } else {
        None
    }
}

/// `read_u8`: one byte.
pub open spec fn spec_read_u8(s: Seq<u8>) -> Option<(u8, nat)> {
    if s.len() >= 1 {
        Some((s[0], 1))
    } else {
        None
    }
}

/// What `wasmparser` reads as a value type at the start of the bytes: the
/// value type and the number of bytes it takes. Reference types take
/// `wasmparser`'s heap-type grammar, which is not restated here.
pub uninterp spec fn wasm_read_valtype(bytes: Seq<u8>) -> Option<(ValType, nat)>;

/// The numeric value type a single byte encodes.
pub open spec fn numeric_valtype(b: u8) -> Option<ValType> {
    if b == 0x7F {
        Some(ValType::I32)
    } else if b == 0x7E {
        Some(ValType::I64)
    } else if b == 0x7D {
        Some(ValType::F32)
    } else if b == 0x7C {
        Some(ValType::F64)
    } else if b == 0x7B {
        Some(ValType::V128)
    } else {
        None
    }
}

/// Result of a read at position `pos`: the value read and the number of bytes taken.
pub open spec fn read_result<T>(res: Result<(T, usize), DecodeError>, spec: Option<(T, nat)>) -> bool {
    match res {
        Ok((v, n)) => spec == Some((v, n as nat)),
        Err(e) => spec is None && e == DecodeError::Malformed,
    }
}

/// Reads one byte at `pos`.
pub fn read_u8_at(bytes: &[u8], pos: usize) -> (res: Result<(u8, usize), DecodeError>)
    requires
        pos <= bytes@.len(),
    ensures
        read_result(res, spec_read_u8(bytes@.skip(pos as int))),
{
    if pos < bytes.len() {
        Ok((bytes[pos], 1))
    } else {
        Err(DecodeError::Malformed)
    }
}

/// Calls `BinaryReader::read_var_u32` on the bytes from `pos` on: it reads
/// an unsigned LEB128 number of at most five bytes, whose fifth byte must be
/// below 16, and fails otherwise or at the end of the bytes.
#[verifier::external_body]
pub(crate) fn read_var_u32_at(bytes: &[u8], pos: usize) -> (res: Result<(u32, usize), DecodeError>)
    requires
        pos <= bytes@.len(),
    ensures
        read_result(res, spec_read_var_u32(bytes@.skip(pos as int))),
{
    let mut r = wasmparser::BinaryReader::new(&bytes[pos..], 0);
    match r.read_var_u32() {
        Ok(v) => Ok((v, r.current_position())),
        Err(_) => Err(DecodeError::Malformed),
    }
}

/// Calls `BinaryReader::read_var_i32` on the bytes from `pos` on: it reads
/// a signed LEB128 number of at most five bytes whose value fits in an `i32`.
#[verifier::external_body]
pub(crate) fn read_var_i32_at(bytes: &[u8], pos: usize) -> (res: Result<(i32, usize), DecodeError>)
    requires
        pos <= bytes@.len(),
    ensures
        read_result(res, spec_read_var_i32(bytes@.skip(pos as int))),
{
    let mut r = wasmparser::BinaryReader::new(&bytes[pos..], 0);
    match r.read_var_i32() {
        Ok(v) => Ok((v, r.current_position())),
        Err(_) => Err(DecodeError::Malformed),
    }
}

/// Calls `BinaryReader::read_var_s33` on the bytes from `pos` on: it reads
/// a signed LEB128 number of at most five bytes whose value fits in 33 bits.
#[verifier::external_body]
pub(crate) fn read_var_s33_at(bytes: &[u8], pos: usize) -> (res: Result<(i64, usize), DecodeError>)
    requires
        pos <= bytes@.len(),
    ensures
        read_result(res, spec_read_var_s33(bytes@.skip(pos as int))),
{
    let mut r = wasmparser::BinaryReader::new(&bytes[pos..], 0);
    match r.read_var_s33() {
        Ok(v) => Ok((v, r.current_position())),
        Err(_) => Err(DecodeError::Malformed),
    }
}

/// Calls `BinaryReader::read_f64` on the bytes from `pos` on and returns the
/// bits of the `Ieee64` it reads: eight little-endian bytes.
#[verifier::external_body]
pub(crate) fn read_f64_bits_at(bytes: &[u8], pos: usize) -> (res: Result<(u64, usize), DecodeError>)
    requires
        pos <= bytes@.len(),
    ensures
        read_result(res, spec_read_u64_le(bytes@.skip(pos as int))),
{
    let mut r = wasmparser::BinaryReader::new(&bytes[pos..], 0);
    match r.read_f64() {
        Ok(v) => Ok((v.bits(), r.current_position())),
        Err(_) => Err(DecodeError::Malformed),
    }
}

/// Calls `BinaryReader::read::<ValType>` on the bytes from `pos` on. The
/// numeric types are the single bytes 0x7F (i32), 0x7E (i64), 0x7D (f32),
/// 0x7C (f64) and 0x7B (v128); any other leading byte starts a reference
/// type, whose grammar is left to the name `wasm_read_valtype`.
#[verifier::external_body]
pub(crate) fn read_valtype_at(bytes: &[u8], pos: usize) -> (res: Result<(ValType, usize), DecodeError>)
    requires
        pos <= bytes@.len(),
    ensures
        read_result(res, wasm_read_valtype(bytes@.skip(pos as int))),
        (res is Ok) ==> 1 <= res.unwrap().1 <= bytes@.len() - pos,
        pos < bytes@.len() && numeric_valtype(bytes@[pos as int]) is Some ==> (res is Ok)
            && res.unwrap() == (numeric_valtype(bytes@[pos as int]).unwrap(), 1usize),
{
    let mut r = wasmparser::BinaryReader::new(&bytes[pos..], 0);
    let t = match r.read::<wasmparser::ValType>() {
        Ok(wasmparser::ValType::I32) => ValType::I32,
        Ok(wasmparser::ValType::I64) => ValType::I64,
        Ok(wasmparser::ValType::F32) => ValType::F32,
        Ok(wasmparser::ValType::F64) => ValType::F64,
        Ok(wasmparser::ValType::V128) => ValType::V128,
        Ok(wasmparser::ValType::Ref(_)) => ValType::Ref,
        Err(_) => return Err(DecodeError::Malformed),
    };
    Ok((t, r.current_position()))
}

/// A read that succeeded took no more bytes than there were.
pub proof fn lemma_read_len_bound<T>(s: Seq<u8>, v: T, n: nat)
    ensures
        spec_read_var_u32(s) matches Some((_, k)) ==> 1 <= k <= s.len(),
        spec_read_var_i32(s) matches Some((_, k)) ==> 1 <= k <= s.len(),
        spec_read_var_s33(s) matches Some((_, k)) ==> 1 <= k <= s.len(),
        spec_read_u64_le(s) matches Some((_, k)) ==> 1 <= k <= s.len(),
        spec_read_u8(s) matches Some((_, k)) ==> 1 <= k <= s.len(),
{
    lemma_leb_len_bound(s);
}

/// The LEB128 prefix length lies within the bytes.
pub proof fn lemma_leb_len_bound(s: Seq<u8>)
    ensures
        leb_len(s) matches Some(n) ==> 1 <= n <= s.len(),
    decreases s.len(),
{
    if s.len() > 0 && s[0] >= 128 {
        lemma_leb_len_bound(s.drop_first());
    }
}

/// Little-endian bytes of the low `w` bytes of `x`.
pub open spec fn le_bytes(x: nat, w: nat) -> Seq<u8>
    decreases w,
{
    if w == 0 {
        Seq::empty()
    } else {
        seq![(x % 256) as u8] + le_bytes(x / 256, (w - 1) as nat)
    }
}

/// Little-endian bytes of `x` grow one byte at a time.
pub proof fn lemma_le_bytes_step(x: nat, i: nat)
    ensures
        le_bytes(x, i + 1) == le_bytes(x, i) + seq![((x / pow256(i)) % 256) as u8],
    decreases i,
{
    if i == 0 {
        assert(pow256(0) == 1);
        assert(le_bytes(x / 256, 0) == Seq::<u8>::empty());
        assert(le_bytes(x, 1) == seq![(x % 256) as u8] + le_bytes(x / 256, 0));
    } else {
        lemma_le_bytes_step(x / 256, (i - 1) as nat);
        lemma_pow256_step((i - 1) as nat);
        assert(x / 256 / pow256((i - 1) as nat) == x / pow256(i)) by {
            vstd::arithmetic::div_mod::lemma_div_denominator(x as int, 256, pow256((i - 1) as nat) as int);
        }
    }
}

/// The value of the low `w` bytes of `x` is `x` modulo 256^w.
pub proof fn lemma_le_value_of_bytes(x: nat, w: nat)
    ensures
        le_bytes(x, w).len() == w,
        le_value(le_bytes(x, w)) == x % pow256(w),
    decreases w,
{
    if w == 0 {
        assert(pow256(0) == 1);
    } else {
        lemma_le_value_of_bytes(x / 256, (w - 1) as nat);
        lemma_pow256_step((w - 1) as nat);
        let b = le_bytes(x, w);
        assert(b.drop_first() == le_bytes(x / 256, (w - 1) as nat));
        vstd::arithmetic::div_mod::lemma_mod_breakdown(x as int, 256, pow256((w - 1) as nat) as int);
    }
}

/// Powers of 256 grow with the exponent.
pub proof fn lemma_pow256_mono(i: nat, j: nat)
    requires
        i <= j,
    ensures
        pow256(i) <= pow256(j),
    decreases j,
{
    if i < j {
        lemma_pow256_mono(i, (j - 1) as nat);
        lemma_pow256_step((j - 1) as nat);
    }
}

/// Signed LEB128 encoding with the fewest bytes: seven bits per byte, least
/// significant first, stopping once the remaining bits are all copies of the
/// sign bit.
pub open spec fn sleb_encode(v: int) -> Seq<u8>
    decreases (if v < 0 { -v } else { v }),
{
    let b = v % 128;
    let r = v / 128;
    if (r == 0 && b < 64) || (r == -1 && b >= 64) {
        seq![b as u8]
    } else {
        seq![(b + 128) as u8] + sleb_encode(r)
    }
}

/// Splits an `i32` into its low seven bits and the rest, as `>> 7` and `& 0x7f` do.
proof fn lemma_i32_split(x: i32)
    ensures
        0 <= (x & 0x7f) < 128,
        (x & 0x7f) as int == (x as int) % 128,
        (x >> 7) as int == (x as int) / 128,
{
    assert(0 <= (x & 0x7f) < 128) by (bit_vector);
    assert(x as int == 128 * ((x >> 7) as int) + (x & 0x7f) as int) by (bit_vector);
    lemma_fundamental_div_mod_converse(x as int, 128, (x >> 7) as int, (x & 0x7f) as int);
}

/// Facts about the bytes that `sleb_encode` produces.
pub proof fn lemma_sleb_encode(v: int)
    ensures
        sleb_encode(v).len() >= 1,
        sleb_encode(v).last() < 128,
        forall|i: int| 0 <= i < sleb_encode(v).len() - 1 ==> sleb_encode(v)[i] >= 128,
        sleb_value(sleb_encode(v)) == v,
        i32::MIN <= v <= i32::MAX ==> sleb_encode(v).len() <= 5,
        -8 <= v < 8 ==> sleb_encode(v).len() == 1,
        -0x400 <= v < 0x400 ==> sleb_encode(v).len() <= 2,
        -0x2_0000 <= v < 0x2_0000 ==> sleb_encode(v).len() <= 3,
        -0x100_0000 <= v < 0x100_0000 ==> sleb_encode(v).len() <= 4,
    decreases (if v < 0 { -v } else { v }),
{
    let b = v % 128;
    let r = v / 128;
    if (r == 0 && b < 64) || (r == -1 && b >= 64) {
    } else {
        lemma_sleb_encode(r);
        let e = sleb_encode(v);
        let t = sleb_encode(r);
        assert(e == seq![(b + 128) as u8] + t);
        assert(e.drop_first() == t);
        assert forall|i: int| 0 <= i < e.len() - 1 implies e[i] >= 128 by {
            if i > 0 {
                assert(e[i] == t[i - 1]);
            }
        }
        assert(e.last() == t.last());
    }
}

/// `sleb_encode` gives the shortest encoding: every nonempty sequence of
/// base-128 digits whose two's-complement value is `v` has at least as many
/// bytes.
pub proof fn lemma_sleb_encode_shortest(v: int, s: Seq<u8>)
    requires
        s.len() >= 1,
        sleb_value(s) == v,
    ensures
        sleb_encode(v).len() <= s.len(),
    decreases s.len(),
{
    if s.len() == 1 {
        let d = (s[0] % 128) as int;
        if d >= 64 {
            lemma_fundamental_div_mod_converse(v, 128, -1, d);
        } else {
            lemma_fundamental_div_mod_converse(v, 128, 0, d);
        }
    } else {
        let d = (s[0] % 128) as int;
        let w = sleb_value(s.drop_first());
        lemma_fundamental_div_mod_converse(v, 128, w, d);
        let b = v % 128;
        let r = v / 128;
        if !((r == 0 && b < 64) || (r == -1 && b >= 64)) {
            lemma_sleb_encode_shortest(w, s.drop_first());
            assert(sleb_encode(v) == seq![(b + 128) as u8] + sleb_encode(r));
        }
    }
}

/// A minimal signed LEB128 encoding of any `i32`, followed by anything, is
/// read back by `read_var_i32` as the same value, taking exactly its bytes.
pub proof fn lemma_sleb_encode_read_back(v: i32, rest: Seq<u8>)
    ensures
        spec_read_var_i32(sleb_encode(v as int) + rest) == Some((v, sleb_encode(v as int).len())),
{
    let e = sleb_encode(v as int);
    lemma_sleb_encode(v as int);
    lemma_leb_len_of_encoding(v as int, rest);
    assert((e + rest).take(e.len() as int) == e);
    assert(sleb_value((e + rest).take(e.len() as int)) == v);
    assert(spec_read_var_i32(e + rest) == Some((sleb_value(e) as i32, e.len())));
}

/// The LEB128 prefix of an encoding followed by anything is the encoding itself.
proof fn lemma_leb_len_of_encoding(v: int, rest: Seq<u8>)
    ensures
        leb_len(sleb_encode(v) + rest) == Some(sleb_encode(v).len()),
    decreases (if v < 0 { -v } else { v }),
{
    let b = v % 128;
    let r = v / 128;
    let e = sleb_encode(v);
    lemma_sleb_encode(v);
    if (r == 0 && b < 64) || (r == -1 && b >= 64) {
        assert((e + rest)[0] == e[0]);
    } else {
        lemma_leb_len_of_encoding(r, rest);
        assert((e + rest)[0] == e[0]);
        assert((e + rest).drop_first() == sleb_encode(r) + rest);
    }
}

/// Encodes `v` in signed LEB128 with the fewest bytes.
pub fn encode_i32leb(v: i32) -> (res: Vec<u8>)
    ensures
        res@ == sleb_encode(v as int),
{
    let mut buf: Vec<u8> = Vec::new();
    let mut val: i32 = v;
    loop
        invariant_except_break
            buf@ + sleb_encode(val as int) == sleb_encode(v as int),
        ensures
            buf@ == sleb_encode(v as int),
        decreases sleb_encode(val as int).len(),
    {
        proof {
            lemma_i32_split(val);
            lemma_sleb_encode(val as int);
        }
        let mut b: u8 = (val & 0x7F) as u8;
        let ghost old_val = val;
        val = val >> 7;
        let is_last = (val == 0 && b & 0x40 == 0) || (val == -1 && b & 0x40 != 0);
        assert(b & 0x40 == 0 <==> b < 64) by (bit_vector)
            requires
                b < 128,
        ;
        if !is_last {
            assert(b | 0x80 == b + 128) by (bit_vector)
                requires
                    b < 128,
            ;
            b = b | 0x80;
        }
        buf.push(b);
        if is_last {
            assert(sleb_encode(old_val as int) == seq![b]);
            assert(buf@ == buf@.drop_last() + seq![b]);
            break;
        }
        assert(sleb_encode(old_val as int) == seq![b] + sleb_encode(val as int));
        assert(buf@ + sleb_encode(val as int) == buf@.drop_last() + (seq![b] + sleb_encode(val as int)));
    }
    buf
}

/// Encodes the bits of an `f64` as the eight little-endian bytes of an `f64.const`.
pub fn encode_f64(bits: u64) -> (res: Vec<u8>)
    ensures
        res@ == le_bytes(bits as nat, 8),
        le_value(res@) == bits,
{
    let res = le_bytes_of(bits, 8);
    proof {
        lemma_le_value_of_bytes(bits as nat, 8);
        assert(pow256(8) == 0x1_0000_0000_0000_0000) by {
            reveal_with_fuel(pow256, 9);
        }
    }
    res
}

/// The low `width` bytes of `x`, least significant first.
pub fn le_bytes_of(x: u64, width: usize) -> (res: Vec<u8>)
    requires
        width <= 8,
    ensures
        res@ == le_bytes(x as nat, width as nat),
{
    let mut buf: Vec<u8> = Vec::new();
    let mut rest: u64 = x;
    let mut i: usize = 0;
    assert(pow256(0) == 1);
    while i < width
        invariant
            i <= width <= 8,
            buf@ == le_bytes(x as nat, i as nat),
            rest == x as nat / pow256(i as nat),
        decreases width - i,
    {
        proof {
            lemma_le_bytes_step(x as nat, i as nat);
            lemma_pow256_step(i as nat);
            vstd::arithmetic::div_mod::lemma_div_denominator(x as int, pow256(i as nat) as int, 256);
        }
        buf.push((rest % 256) as u8);
        rest = rest / 256;
        i += 1;
    }
    buf
}

/// 256 to the power `k`.
pub open spec fn pow256(k: nat) -> nat
    decreases k,
{
    if k == 0 {
        1
    } else {
        256 * pow256((k - 1) as nat)
    }
}

pub proof fn lemma_pow256_step(k: nat)
    ensures
        pow256(k + 1) == 256 * pow256(k),
        pow256(k) >= 1,
    decreases k,
{
    if k > 0 {
        lemma_pow256_step((k - 1) as nat);
    }
}

/// Appending a byte adds it at the next power of 256.
pub proof fn lemma_le_value_push(s: Seq<u8>, b: u8)
    ensures
        le_value(s.push(b)) == le_value(s) + pow256(s.len()) * b,
    decreases s.len(),
{
    if s.len() == 0 {
        assert(s.push(b).drop_first().len() == 0);
        assert(le_value(s.push(b).drop_first()) == 0);
        assert(pow256(0) == 1);
    } else {
        lemma_le_value_push(s.drop_first(), b);
        assert(s.push(b).drop_first() == s.drop_first().push(b));
        lemma_pow256_step((s.len() - 1) as nat);
        let p = pow256((s.len() - 1) as nat);
        let x = le_value(s.drop_first());
        assert(le_value(s.push(b)) == s[0] + 256 * le_value(s.drop_first().push(b)));
        assert(256 * (x + p * b) == 256 * x + (256 * p) * b) by (nonlinear_arith);
    }
}

/// Little-endian bytes are worth less than the next power of 256.
pub proof fn lemma_le_value_bound(s: Seq<u8>)
    ensures
        le_value(s) < pow256(s.len()),
    decreases s.len(),
{
    if s.len() == 0 {
        assert(pow256(0) == 1);
    } else {
        lemma_le_value_bound(s.drop_first());
        lemma_pow256_step((s.len() - 1) as nat);
        let p = pow256((s.len() - 1) as nat);
        let x = le_value(s.drop_first());
        assert(s[0] + 256 * x < 256 * p) by (nonlinear_arith)
            requires
                x < p,
                s[0] < 256,
        ;
    }
}

} // verus!
