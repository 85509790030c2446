//! Variable-length-quantity (VLQ) integer primitives.
//!
//! Unsigned integers travel in base-128 groups, least significant first, the
//! high bit of each byte marking continuation. Signed integers are first
//! mapped to unsigned ones with zig-zag encoding. Single `u8` fields travel
//! as one raw byte, without any encoding.

use vstd::prelude::*;
use vstd::slice::{slice_subrange, slice_to_vec};

verus! {

/// Ways a VLQ-level read can fail.
#[derive(Debug, Clone, Copy, PartialEq, Eq, Structural)]
pub enum VlqError {
    /// The stream ended in the middle of a read.
    UnexpectedEof,
    /// The decoded value does not fit the requested integer type.
    OutOfRange,
    /// The continuation bytes of one value ran past the longest allowed run.
    DecodingFailed,
}

/// Fallible VLQ-based decoding from a byte buffer.
pub trait TryFromVlq: Sized {
    /// Error returned when the buffer does not decode to `Self`.
    type Error;

    /// Decode a value of `Self` from the full contents of `data`.
    fn try_from_vlq(data: Vec<u8>) -> Result<Self, Self::Error>;
}

/// Fallible VLQ-based encoding into a fresh byte buffer.
pub trait TryIntoVlq {
    /// Error returned when the value cannot be encoded.
    type Error;

    /// Encode `self` into a fresh byte buffer.
    fn try_into_vlq(&self) -> Result<Vec<u8>, Self::Error>;
}

/// The base-128 little-endian encoding of `v`: low seven bits first, the high
/// bit of every byte but the last set as a continuation marker.
pub open spec fn vlq_enc(v: nat) -> Seq<u8>
    decreases v,
{
    if v < 128 {
        seq![v as u8]
    } else {
        seq![(v % 128 + 128) as u8] + vlq_enc(v / 128)
    }
}

/// Outcome of scanning one VLQ run in a buffer.
pub ghost enum VlqDec {
    /// The buffer ended before a byte without the continuation bit.
    Eof,
    /// More than the allowed number of bytes carried the continuation bit.
    TooLong,
    /// The run decodes to this (unbounded) value and ends at this index.
    Val(nat, int),
}

/// Scan one VLQ run in `s` starting at `i`, allowing at most `budget` bytes.
pub open spec fn vlq_dec(s: Seq<u8>, i: int, budget: nat) -> VlqDec
    decreases budget,
{
    if budget == 0 {
        VlqDec::TooLong
    } else if i < 0 || i >= s.len() {
        VlqDec::Eof
    } else if s[i] < 128 {
        VlqDec::Val(s[i] as nat, i + 1)
    } else {
        match vlq_dec(s, i + 1, (budget - 1) as nat) {
            VlqDec::Val(v, j) => VlqDec::Val(((s[i] - 128) + 128 * v) as nat, j),
            other => other,
        }
    }
}

/// `128^k`, the number of values that `k` VLQ bytes can carry.
pub open spec fn pow128(k: nat) -> nat
    decreases k,
{
    if k == 0 {
        1
    } else {
        128 * pow128((k - 1) as nat)
    }
}

/// An encoding takes `k` bytes only for values below `128^k`.
pub proof fn lemma_vlq_enc_len(v: nat, k: nat)
    requires
        1 <= k,
        v < pow128(k),
    ensures
        1 <= vlq_enc(v).len() <= k,
    decreases v,
{
    if v >= 128 {
        assert(pow128(k) == 128 * pow128((k - 1) as nat));
        lemma_vlq_enc_len(v / 128, (k - 1) as nat);
    }
}

/// A value below `u64::MAX + 1` encodes in at most ten bytes.
pub proof fn lemma_vlq_enc_len_u64(v: nat)
    requires
        v < 0x1_0000_0000_0000_0000,
    ensures
        1 <= vlq_enc(v).len() <= 10,
{
    assert(pow128(10) >= 0x1_0000_0000_0000_0000 as nat) by {
        reveal_with_fuel(pow128, 11);
    }
    lemma_vlq_enc_len(v, 10);
}

/// No VLQ byte run carries a value below one.
pub proof fn lemma_pow128_pos(k: nat)
    ensures
        pow128(k) >= 1,
    decreases k,
{
    if k > 0 {
        lemma_pow128_pos((k - 1) as nat);
    }
}

/// More VLQ bytes can carry at least as many values.
pub proof fn lemma_pow128_mono(a: nat, b: nat)
    requires
        a <= b,
    ensures
        pow128(a) <= pow128(b),
    decreases b,
{
    if a < b {
        lemma_pow128_mono(a, (b - 1) as nat);
        lemma_pow128_pos((b - 1) as nat);
    }
}

/// A scanned run stays within its budget and moves forward, and its value is
/// bounded by what that many bytes can carry.
pub proof fn lemma_vlq_dec_bounds(s: Seq<u8>, i: int, budget: nat)
    ensures
        vlq_dec(s, i, budget) matches VlqDec::Val(v, j) ==> {
            &&& v < pow128(budget)
            &&& i + 1 <= j <= i + budget
            &&& j <= s.len()
        },
    decreases budget,
{
    if budget > 0 && 0 <= i < s.len() {
        lemma_pow128_pos((budget - 1) as nat);
        if s[i] >= 128 {
            lemma_vlq_dec_bounds(s, i + 1, (budget - 1) as nat);
        }
    }
}

/// Scanning a buffer that holds an encoding at `i` yields the encoded value
/// and stops right after it, whatever follows.
pub proof fn lemma_vlq_roundtrip(s: Seq<u8>, i: int, v: nat, budget: nat)
    requires
        0 <= i,
        i + vlq_enc(v).len() <= s.len(),
        s.subrange(i, i + vlq_enc(v).len()) == vlq_enc(v),
        vlq_enc(v).len() <= budget,
    ensures
        vlq_dec(s, i, budget) == VlqDec::Val(v, i + vlq_enc(v).len()),
    decreases v,
{
    let e = vlq_enc(v);
    assert(s[i] == e[0]);
    if v < 128 {
        assert(s[i] == v as u8);
    } else {
        let e2 = vlq_enc(v / 128);
        assert(s.subrange(i + 1, i + 1 + e2.len() as int) =~= e2) by {
            assert forall|k: int| 0 <= k < e2.len() implies s[i + 1 + k] == e2[k] by {
                assert(e[k + 1] == e2[k]);
                assert(s[i + 1 + k] == s.subrange(i, i + e.len() as int)[k + 1]);
            }
        }
        lemma_vlq_roundtrip(s, i + 1, v / 128, (budget - 1) as nat);
        assert(s[i] == (v % 128 + 128) as u8);
        assert((s[i] - 128) + 128 * (v / 128) == v);
    }
}

/// How many bytes the encoding of a `u16` takes, by value range.
pub proof fn lemma_vlq_enc_len_u16(p: u16)
    ensures
        p < 128 ==> vlq_enc(p as nat).len() == 1,
        128 <= p < 16384 ==> vlq_enc(p as nat).len() == 2,
        16384 <= p ==> vlq_enc(p as nat).len() == 3,
{
    reveal_with_fuel(vlq_enc, 4);
}

/// Reading one raw byte: the byte at `i`, or a failure past the end.
pub open spec fn spec_get_u8(s: Seq<u8>, i: int) -> Result<(u8, int), VlqError> {
    if 0 <= i < s.len() {
        Ok((s[i], i + 1))
    } else {
        Err(VlqError::UnexpectedEof)
    }
}

/// Reading a `u64`: one VLQ run of at most ten bytes, its value kept modulo
/// `2^64` (bits beyond the 64th are dropped, not rejected).
pub open spec fn spec_get_u64(s: Seq<u8>, i: int) -> Result<(u64, int), VlqError> {
    match vlq_dec(s, i, 10) {
        VlqDec::Eof => Err(VlqError::UnexpectedEof),
        VlqDec::TooLong => Err(VlqError::DecodingFailed),
        VlqDec::Val(v, j) => Ok(((v % 0x1_0000_0000_0000_0000) as u64, j)),
    }
}

/// Reading a `u32`: a `u64` run whose value must fit in 32 bits.
pub open spec fn spec_get_u32(s: Seq<u8>, i: int) -> Result<(u32, int), VlqError> {
    match spec_get_u64(s, i) {
        Ok((v, j)) => if v <= u32::MAX {
            Ok((v as u32, j))
        } else {
            Err(VlqError::OutOfRange)
        },
        Err(e) => Err(e),
    }
}

/// Reading a `u16`: a `u64` run whose value must fit in 16 bits.
pub open spec fn spec_get_u16(s: Seq<u8>, i: int) -> Result<(u16, int), VlqError> {
    match spec_get_u64(s, i) {
        Ok((v, j)) => if v <= u16::MAX {
            Ok((v as u16, j))
        } else {
            Err(VlqError::OutOfRange)
        },
        Err(e) => Err(e),
    }
}

/// Zig-zag image of an `i32` as it goes on the wire: the 32-bit zig-zag value,
/// sign-extended to 64 bits when its top bit is set (so the wire carries ten
/// bytes for values whose zig-zag image is `2^31` or more).
pub open spec fn zigzag_ext_i32(v: i32) -> u64 {
    let z: int = if v >= 0 {
        2 * v
    } else {
        -2 * v - 1
    };
    if z < 0x8000_0000 {
        z as u64
    } else {
        (z + 0xFFFF_FFFF_0000_0000) as u64
    }
}

/// Zig-zag image of an `i64` on the wire.
pub open spec fn zigzag_i64(v: i64) -> u64 {
    if v >= 0 {
        (2 * v) as u64
    } else {
        (-2 * v - 1) as u64
    }
}

/// Recover an `i32` from its wire image: only the low 32 bits count.
pub open spec fn zigzag_dec_u32(u: u64) -> i32 {
    let low = (u as nat) % 0x1_0000_0000;
    if low % 2 == 0 {
        (low / 2) as i32
    } else {
        (-((low / 2) as int) - 1) as i32
    }
}

/// Recover an `i64` from its wire image.
pub open spec fn zigzag_dec_u64(u: u64) -> i64 {
    if u % 2 == 0 {
        (u / 2) as i64
    } else {
        (-((u / 2) as int) - 1) as i64
    }
}

/// Reading an `i32`: a `u64` run, decoded through the 32-bit zig-zag map.
pub open spec fn spec_get_i32(s: Seq<u8>, i: int) -> Result<(i32, int), VlqError> {
    match spec_get_u64(s, i) {
        Ok((v, j)) => Ok((zigzag_dec_u32(v), j)),
        Err(e) => Err(e),
    }
}

/// Reading an `i64`: a `u64` run, decoded through the 64-bit zig-zag map.
pub open spec fn spec_get_i64(s: Seq<u8>, i: int) -> Result<(i64, int), VlqError> {
    match spec_get_u64(s, i) {
        Ok((v, j)) => Ok((zigzag_dec_u64(v), j)),
        Err(e) => Err(e),
    }
}

/// The 32-bit zig-zag map undoes itself across the wire.
pub proof fn lemma_zigzag32_roundtrip(v: i32)
    ensures
        zigzag_dec_u32(zigzag_ext_i32(v)) == v,
{
    let z: int = if v >= 0 {
        2 * v
    } else {
        -2 * v - 1
    };
    let u = zigzag_ext_i32(v);
    assert((u as nat) % 0x1_0000_0000 == z) by {
        if z >= 0x8000_0000 {
            vstd::arithmetic::div_mod::lemma_mod_multiples_vanish(
                0xFFFF_FFFF,
                z,
                0x1_0000_0000,
            );
        }
        vstd::arithmetic::div_mod::lemma_small_mod(z as nat, 0x1_0000_0000);
    }
}

/// The 64-bit zig-zag map undoes itself across the wire.
pub proof fn lemma_zigzag64_roundtrip(v: i64)
    ensures
        zigzag_dec_u64(zigzag_i64(v)) == v,
{
}

/// Reading a `u64` where the buffer holds the encoding of `v` at `i` yields
/// exactly `v` and stops right after it.
pub proof fn lemma_spec_get_u64_of_enc(s: Seq<u8>, i: int, v: u64)
    requires
        0 <= i,
        i + vlq_enc(v as nat).len() <= s.len(),
        s.subrange(i, i + vlq_enc(v as nat).len()) == vlq_enc(v as nat),
    ensures
        spec_get_u64(s, i) == Ok::<(u64, int), VlqError>((v, i + vlq_enc(v as nat).len())),
{
    lemma_vlq_enc_len_u64(v as nat);
    lemma_vlq_roundtrip(s, i, v as nat, 10);
    assert((v as nat) % 0x1_0000_0000_0000_0000 == v as nat) by {
        vstd::arithmetic::div_mod::lemma_small_mod(v as nat, 0x1_0000_0000_0000_0000);
    }
}

/// The `u16` version of [`lemma_spec_get_u64_of_enc`].
pub proof fn lemma_spec_get_u16_of_enc(s: Seq<u8>, i: int, v: u16)
    requires
        0 <= i,
        i + vlq_enc(v as nat).len() <= s.len(),
        s.subrange(i, i + vlq_enc(v as nat).len()) == vlq_enc(v as nat),
    ensures
        spec_get_u16(s, i) == Ok::<(u16, int), VlqError>((v, i + vlq_enc(v as nat).len())),
{
    lemma_spec_get_u64_of_enc(s, i, v as u64);
}

/// The `u32` version of [`lemma_spec_get_u64_of_enc`].
pub proof fn lemma_spec_get_u32_of_enc(s: Seq<u8>, i: int, v: u32)
    requires
        0 <= i,
        i + vlq_enc(v as nat).len() <= s.len(),
        s.subrange(i, i + vlq_enc(v as nat).len()) == vlq_enc(v as nat),
    ensures
        spec_get_u32(s, i) == Ok::<(u32, int), VlqError>((v, i + vlq_enc(v as nat).len())),
{
    lemma_spec_get_u64_of_enc(s, i, v as u64);
}

/// Reading an `i32` where the buffer holds the zig-zag encoding of `v` at `i`
/// yields exactly `v`.
pub proof fn lemma_spec_get_i32_of_enc(s: Seq<u8>, i: int, v: i32)
    requires
        0 <= i,
        i + vlq_enc(zigzag_ext_i32(v) as nat).len() <= s.len(),
        s.subrange(i, i + vlq_enc(zigzag_ext_i32(v) as nat).len()) == vlq_enc(
            zigzag_ext_i32(v) as nat,
        ),
    ensures
        spec_get_i32(s, i) == Ok::<(i32, int), VlqError>(
            (v, i + vlq_enc(zigzag_ext_i32(v) as nat).len()),
        ),
{
    lemma_spec_get_u64_of_enc(s, i, zigzag_ext_i32(v));
    lemma_zigzag32_roundtrip(v);
}

/// Reading an `i64` where the buffer holds the zig-zag encoding of `v` at `i`
/// yields exactly `v`.
pub proof fn lemma_spec_get_i64_of_enc(s: Seq<u8>, i: int, v: i64)
    requires
        0 <= i,
        i + vlq_enc(zigzag_i64(v) as nat).len() <= s.len(),
        s.subrange(i, i + vlq_enc(zigzag_i64(v) as nat).len()) == vlq_enc(zigzag_i64(v) as nat),
    ensures
        spec_get_i64(s, i) == Ok::<(i64, int), VlqError>(
            (v, i + vlq_enc(zigzag_i64(v) as nat).len()),
        ),
{
    lemma_spec_get_u64_of_enc(s, i, zigzag_i64(v));
    lemma_zigzag64_roundtrip(v);
}

/// Exec mirror of [`zigzag_ext_i32`].
pub fn zigzag_encode_i32(v: i32) -> (r: u64)
    ensures
        r == zigzag_ext_i32(v),
{
    let z: i64 = if v >= 0 {
        2 * (v as i64)
    } else {
        let m: i64 = -(v as i64);
        2 * m - 1
    };
    if z < 0x8000_0000 {
        z as u64
    } else {
        (z as u64) + 0xFFFF_FFFF_0000_0000
    }
}

/// Exec mirror of [`zigzag_dec_u32`].
pub fn zigzag_decode_u32(u: u64) -> (r: i32)
    ensures
        r == zigzag_dec_u32(u),
{
    let low: u64 = u % 0x1_0000_0000;
    if low % 2 == 0 {
        (low / 2) as i32
    } else {
        (-((low / 2) as i64) - 1) as i32
    }
}

/// Exec mirror of [`zigzag_i64`].
pub fn zigzag_encode_i64(v: i64) -> (r: u64)
    ensures
        r == zigzag_i64(v),
{
    if v >= 0 {
        2 * (v as u64)
    } else {
        let m: u64 = ((-(v as i128)) as u64);
        2 * (m - 1) + 1
    }
}

/// Exec mirror of [`zigzag_dec_u64`].
pub fn zigzag_decode_u64(u: u64) -> (r: i64)
    ensures
        r == zigzag_dec_u64(u),
{
    if u % 2 == 0 {
        (u / 2) as i64
    } else {
        -((u / 2) as i64) - 1
    }
}

/// A byte-buffer reader with a cursor, the exec side of the `spec_get_*`
/// readers above.
pub struct VlqReader<'a> {
    data: &'a [u8],
    pos: usize,
}

impl<'a> VlqReader<'a> {
    #[verifier::type_invariant]
    spec fn wf(self) -> bool {
        self.pos <= self.data@.len()
    }

    /// The whole underlying buffer.
    pub closed spec fn bytes(self) -> Seq<u8> {
        self.data@
    }

    /// The cursor: how many bytes have been consumed.
    pub closed spec fn position(self) -> int {
        self.pos as int
    }

    /// Start reading `data` from its first byte.
    pub fn new(data: &'a [u8]) -> (r: Self)
        ensures
            r.bytes() == data@,
            r.position() == 0,
    {
        VlqReader { data, pos: 0 }
    }

    /// Read one raw byte.
    pub fn get_u8(&mut self) -> (r: Result<u8, VlqError>)
        ensures
            final(self).bytes() == old(self).bytes(),
            0 <= old(self).position() && final(self).position() <= final(self).bytes().len(),
            old(self).position() <= final(self).position(),
            match spec_get_u8(old(self).bytes(), old(self).position()) {
                Ok((b, j)) => r == Ok::<u8, VlqError>(b) && final(self).position() == j,
                Err(e) => r == Err::<u8, VlqError>(e) && final(self).position() == old(
                    self,
                ).position(),
            },
    {
        proof {
            use_type_invariant(&*self);
        }
        if self.pos < self.data.len() {
            let b = self.data[self.pos];
            self.pos = self.pos + 1;
            Ok(b)
        } else {
            Err(VlqError::UnexpectedEof)
        }
    }

    /// Read one VLQ run of at most `budget` bytes, returning its full value.
    fn get_vlq_raw(&mut self, budget: usize) -> (r: Result<u128, VlqError>)
        requires
            budget <= 10,
        ensures
            final(self).bytes() == old(self).bytes(),
            0 <= old(self).position() && final(self).position() <= final(self).bytes().len(),
            old(self).position() <= final(self).position(),
            match vlq_dec(old(self).bytes(), old(self).position(), budget as nat) {
                VlqDec::Eof => r == Err::<u128, VlqError>(VlqError::UnexpectedEof),
                VlqDec::TooLong => r == Err::<u128, VlqError>(VlqError::DecodingFailed),
                VlqDec::Val(v, j) => r matches Ok(x) && x == v && final(self).position() == j,
            },
        decreases budget,
    {
        proof {
            use_type_invariant(&*self);
        }
        if budget == 0 {
            return Err(VlqError::DecodingFailed);
        }
        let b = match self.get_u8() {
            Ok(b) => b,
            Err(e) => return Err(e),
        };
        if b < 128 {
            Ok(b as u128)
        } else {
            match self.get_vlq_raw(budget - 1) {
                Ok(rest) => {
                    proof {
                        lemma_vlq_dec_bounds(self.bytes(), old(self).position() + 1, (budget
                            - 1) as nat);
                        assert(pow128(9) == 0x8000_0000_0000_0000 as nat) by {
                            reveal_with_fuel(pow128, 10);
                        }
                        lemma_pow128_mono((budget - 1) as nat, 9);
                    }
                    Ok(((b - 128) as u128) + 128 * rest)
                },
                Err(e) => Err(e),
            }
        }
    }

    /// Read a VLQ-encoded `u64`.
    pub fn get_u64(&mut self) -> (r: Result<u64, VlqError>)
        ensures
            final(self).bytes() == old(self).bytes(),
            0 <= old(self).position() && final(self).position() <= final(self).bytes().len(),
            old(self).position() <= final(self).position(),
            match spec_get_u64(old(self).bytes(), old(self).position()) {
                Ok((v, j)) => r == Ok::<u64, VlqError>(v) && final(self).position() == j,
                Err(e) => r == Err::<u64, VlqError>(e),
            },
    {
        match self.get_vlq_raw(10) {
            Ok(raw) => {
                let r64: u64 = #[verifier::truncate] (raw as u64);
                proof {
                    let ghost s = old(self).bytes();
                    let ghost i = old(self).position();
                    assert(vlq_dec(s, i, 10) matches VlqDec::Val(v, j) && raw == v);
                    assert(raw as u64 == (raw % 0x1_0000_0000_0000_0000) as u64)
                        by (bit_vector);
                    assert(r64 as nat == (raw as nat) % 0x1_0000_0000_0000_0000);
                }
                Ok(r64)
            },
            Err(e) => Err(e),
        }
    }

    /// Read a VLQ-encoded `u32`.
    pub fn get_u32(&mut self) -> (r: Result<u32, VlqError>)
        ensures
            final(self).bytes() == old(self).bytes(),
            0 <= old(self).position() && final(self).position() <= final(self).bytes().len(),
            old(self).position() <= final(self).position(),
            match spec_get_u32(old(self).bytes(), old(self).position()) {
                Ok((v, j)) => r == Ok::<u32, VlqError>(v) && final(self).position() == j,
                Err(e) => r == Err::<u32, VlqError>(e),
            },
    {
        match self.get_u64() {
            Ok(v) => if v <= u32::MAX as u64 {
                Ok(v as u32)
            } else {
                Err(VlqError::OutOfRange)
            },
            Err(e) => Err(e),
        }
    }

    /// Read a VLQ-encoded `u16`.
    pub fn get_u16(&mut self) -> (r: Result<u16, VlqError>)
        ensures
            final(self).bytes() == old(self).bytes(),
            0 <= old(self).position() && final(self).position() <= final(self).bytes().len(),
            old(self).position() <= final(self).position(),
            match spec_get_u16(old(self).bytes(), old(self).position()) {
                Ok((v, j)) => r == Ok::<u16, VlqError>(v) && final(self).position() == j,
                Err(e) => r == Err::<u16, VlqError>(e),
            },
    {
        match self.get_u64() {
            Ok(v) => if v <= u16::MAX as u64 {
                Ok(v as u16)
            } else {
                Err(VlqError::OutOfRange)
            },
            Err(e) => Err(e),
        }
    }

    /// Read a zig-zag VLQ-encoded `i32`.
    pub fn get_i32(&mut self) -> (r: Result<i32, VlqError>)
        ensures
            final(self).bytes() == old(self).bytes(),
            0 <= old(self).position() && final(self).position() <= final(self).bytes().len(),
            old(self).position() <= final(self).position(),
            match spec_get_i32(old(self).bytes(), old(self).position()) {
                Ok((v, j)) => r == Ok::<i32, VlqError>(v) && final(self).position() == j,
                Err(e) => r == Err::<i32, VlqError>(e),
            },
    {
        match self.get_u64() {
            Ok(v) => Ok(zigzag_decode_u32(v)),
            Err(e) => Err(e),
        }
    }

    /// Read a zig-zag VLQ-encoded `i64`.
    pub fn get_i64(&mut self) -> (r: Result<i64, VlqError>)
        ensures
            final(self).bytes() == old(self).bytes(),
            0 <= old(self).position() && final(self).position() <= final(self).bytes().len(),
            old(self).position() <= final(self).position(),
            match spec_get_i64(old(self).bytes(), old(self).position()) {
                Ok((v, j)) => r == Ok::<i64, VlqError>(v) && final(self).position() == j,
                Err(e) => r == Err::<i64, VlqError>(e),
            },
    {
        match self.get_u64() {
            Ok(v) => Ok(zigzag_decode_u64(v)),
            Err(e) => Err(e),
        }
    }

    /// Copy the next `len` raw bytes out of the buffer.
    pub fn read_vec(&mut self, len: usize) -> (r: Result<Vec<u8>, VlqError>)
        ensures
            final(self).bytes() == old(self).bytes(),
            0 <= old(self).position() && final(self).position() <= final(self).bytes().len(),
            old(self).position() <= final(self).position(),
            (r matches Ok(v)) <==> old(self).position() + len <= old(self).bytes().len(),
            r matches Ok(v) ==> v@ == old(self).bytes().subrange(
                old(self).position(),
                old(self).position() + len,
            ) && final(self).position() == old(self).position() + len,
            r matches Err(e) ==> e == VlqError::UnexpectedEof && final(self).position() == old(
                self,
            ).position(),
    {
        proof {
            use_type_invariant(&*self);
        }
        if len > self.data.len() - self.pos {
            return Err(VlqError::UnexpectedEof);
        }
        let s = slice_subrange(self.data, self.pos, self.pos + len);
        self.pos = self.pos + len;
        Ok(slice_to_vec(s))
    }
}

/// A growable byte buffer, the exec side of [`vlq_enc`] and friends.
pub struct VlqWriter {
    out: Vec<u8>,
}

impl VlqWriter {
    /// Everything written so far.
    pub closed spec fn bytes(self) -> Seq<u8> {
        self.out@
    }

    /// An empty buffer.
    pub fn new() -> (r: Self)
        ensures
            r.bytes() == Seq::<u8>::empty(),
    {
        VlqWriter { out: Vec::new() }
    }

    /// Append one raw byte.
    pub fn put_u8(&mut self, v: u8)
        ensures
            final(self).bytes() == old(self).bytes() + seq![v],
    {
        self.out.push(v);
        proof {
            assert(final(self).bytes() =~= old(self).bytes() + seq![v]);
        }
    }

    /// Append the VLQ encoding of a `u64`.
    pub fn put_u64(&mut self, v: u64)
        ensures
            final(self).bytes() == old(self).bytes() + vlq_enc(v as nat),
        decreases v,
    {
        if v < 128 {
            self.out.push(v as u8);
            proof {
                assert(final(self).bytes() =~= old(self).bytes() + vlq_enc(v as nat));
            }
        } else {
            self.out.push((v % 128 + 128) as u8);
            self.put_u64(v / 128);
            proof {
                assert(final(self).bytes() =~= old(self).bytes() + vlq_enc(v as nat));
            }
        }
    }

    /// Append the VLQ encoding of a `u32`.
    pub fn put_u32(&mut self, v: u32)
        ensures
            final(self).bytes() == old(self).bytes() + vlq_enc(v as nat),
    {
        self.put_u64(v as u64);
    }

    /// Append the VLQ encoding of a `u16`.
    pub fn put_u16(&mut self, v: u16)
        ensures
            final(self).bytes() == old(self).bytes() + vlq_enc(v as nat),
    {
        self.put_u64(v as u64);
    }

    /// Append the zig-zag VLQ encoding of an `i32`.
    pub fn put_i32(&mut self, v: i32)
        ensures
            final(self).bytes() == old(self).bytes() + vlq_enc(zigzag_ext_i32(v) as nat),
    {
        let z = zigzag_encode_i32(v);
        self.put_u64(z);
    }

    /// Append the zig-zag VLQ encoding of an `i64`.
    pub fn put_i64(&mut self, v: i64)
        ensures
            final(self).bytes() == old(self).bytes() + vlq_enc(zigzag_i64(v) as nat),
    {
        let z = zigzag_encode_i64(v);
        self.put_u64(z);
    }

    /// Append raw bytes as they are.
    pub fn write_bytes(&mut self, data: &[u8])
        ensures
            final(self).bytes() == old(self).bytes() + data@,
    {
        let mut i: usize = 0;
        while i < data.len()
            invariant
                i <= data@.len(),
                self.out@ == old(self).bytes() + data@.subrange(0, i as int),
            decreases data@.len() - i,
        {
            self.out.push(data[i]);
            i = i + 1;
            proof {
                assert(self.out@ =~= old(self).bytes() + data@.subrange(0, i as int));
            }
        }
        proof {
            assert(data@.subrange(0, data@.len() as int) =~= data@);
        }
    }

    /// Hand the accumulated buffer out.
    pub fn into_inner(self) -> (r: Vec<u8>)
        ensures
            r@ == self.bytes(),
    {
        self.out
    }
}

} // verus!
