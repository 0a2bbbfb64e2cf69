use vstd::prelude::*;
use vstd::utf8::{valid_utf8, decode_utf8};
use crate::error::HXAError;

verus! {

/// What reading one item at some position of a byte sequence gives: the item
/// or the reason for the failure, and the position at which the cursor is left.
/// A failed read leaves the cursor where the read that failed began.
pub struct Outcome<T> {
    pub result: Result<T, HXAError>,
    pub end: int,
}

/// The outcome of a read that gave `value` and left the cursor at `end`.
pub open spec fn done<T>(value: T, end: int) -> Outcome<T> {
    Outcome { result: Ok(value), end }
}

/// The outcome of a read that failed with `error` and left the cursor at `at`.
pub open spec fn failed<T>(error: HXAError, at: int) -> Outcome<T> {
    Outcome { result: Err(error), end: at }
}

/// The outcome that an executable read of a sequence reports with `r`, having
/// left the cursor at `end`.
pub open spec fn seq_outcome<T>(r: Result<Vec<T>, HXAError>, end: int) -> Outcome<Seq<T>> {
    match r {
        Ok(v) => done(v@, end),
        Err(e) => failed(e, end),
    }
}

/// The outcome that an executable read of a text reports with `r`, having left
/// the cursor at `end`.
pub open spec fn text_outcome(r: Result<String, HXAError>, end: int) -> Outcome<Seq<char>> {
    match r {
        Ok(t) => done(t@, end),
        Err(e) => failed(e, end),
    }
}

/// `s` holds `n` bytes from position `p` on.
pub open spec fn in_bounds(s: Seq<u8>, p: int, n: int) -> bool {
    0 <= p && 0 <= n && p + n <= s.len()
}

/// The unsigned 32-bit integer whose little-endian bytes stand at `p`.
pub open spec fn le_u32(s: Seq<u8>, p: int) -> u32 {
    (s[p] as int + 0x100 * (s[p + 1] as int) + 0x1_0000 * (s[p + 2] as int) + 0x100_0000 * (
    s[p + 3] as int)) as u32
}

/// The unsigned 64-bit integer whose little-endian bytes stand at `p`.
pub open spec fn le_u64(s: Seq<u8>, p: int) -> u64 {
    (le_u32(s, p) as int + 0x1_0000_0000 * (le_u32(s, p + 4) as int)) as u64
}

/// The signed integer that the 32 bits of `u` stand for in two's complement.
pub open spec fn signed_32(u: u32) -> i32 {
    if u < 0x8000_0000 {
        u as i32
    } else {
        (u as int - 0x1_0000_0000) as i32
    }
}

/// The signed integer that the 64 bits of `u` stand for in two's complement.
pub open spec fn signed_64(u: u64) -> i64 {
    if u < 0x8000_0000_0000_0000 {
        u as i64
    } else {
        (u as int - 0x1_0000_0000_0000_0000) as i64
    }
}

/// The signed 32-bit integer whose little-endian bytes stand at `p`.
pub open spec fn le_i32(s: Seq<u8>, p: int) -> i32 {
    signed_32(le_u32(s, p))
}

/// The signed 64-bit integer whose little-endian bytes stand at `p`.
pub open spec fn le_i64(s: Seq<u8>, p: int) -> i64 {
    signed_64(le_u64(s, p))
}

/// Reading one byte at `p`.
pub open spec fn u8_at(s: Seq<u8>, p: int) -> Outcome<u8> {
    if in_bounds(s, p, 1) {
        done(s[p], p + 1)
    } else {
        failed(HXAError::UnexpectedEof, p)
    }
}

/// Reading an unsigned 32-bit integer at `p`.
pub open spec fn u32_at(s: Seq<u8>, p: int) -> Outcome<u32> {
    if in_bounds(s, p, 4) {
        done(le_u32(s, p), p + 4)
    } else {
        failed(HXAError::UnexpectedEof, p)
    }
}

/// Reading a signed 32-bit integer at `p`.
pub open spec fn i32_at(s: Seq<u8>, p: int) -> Outcome<i32> {
    if in_bounds(s, p, 4) {
        done(le_i32(s, p), p + 4)
    } else {
        failed(HXAError::UnexpectedEof, p)
    }
}

/// Reading an unsigned 64-bit integer at `p`.
pub open spec fn u64_at(s: Seq<u8>, p: int) -> Outcome<u64> {
    if in_bounds(s, p, 8) {
        done(le_u64(s, p), p + 8)
    } else {
        failed(HXAError::UnexpectedEof, p)
    }
}

/// Reading a signed 64-bit integer at `p`.
pub open spec fn i64_at(s: Seq<u8>, p: int) -> Outcome<i64> {
    if in_bounds(s, p, 8) {
        done(le_i64(s, p), p + 8)
    } else {
        failed(HXAError::UnexpectedEof, p)
    }
}

/// Reading `n` raw bytes at `p`.
pub open spec fn bytes_at(s: Seq<u8>, p: int, n: int) -> Outcome<Seq<u8>> {
    if in_bounds(s, p, n) {
        done(s.subrange(p, p + n), p + n)
    } else {
        failed(HXAError::UnexpectedEof, p)
    }
}

/// Reading `n` bytes at `p` as UTF-8 text. The bytes must all be there before
/// their encoding is looked at.
pub open spec fn utf8_at(s: Seq<u8>, p: int, n: int) -> Outcome<Seq<char>> {
    if !in_bounds(s, p, n) {
        failed(HXAError::UnexpectedEof, p)
    } else if !valid_utf8(s.subrange(p, p + n)) {
        failed(HXAError::InvalidUtf8, p)
    } else {
        done(decode_utf8(s.subrange(p, p + n)), p + n)
    }
}

/// Reading `n` signed 32-bit integers at `p`. The whole array must be there:
/// a short stream gives no part of it.
pub open spec fn i32_array_at(s: Seq<u8>, p: int, n: int) -> Outcome<Seq<i32>> {
    if in_bounds(s, p, 4 * n) {
        done(Seq::new(n as nat, |i: int| le_i32(s, p + 4 * i)), p + 4 * n)
    } else {
        failed(HXAError::UnexpectedEof, p)
    }
}

/// Reading `n` unsigned 32-bit integers at `p`, all or none.
pub open spec fn u32_array_at(s: Seq<u8>, p: int, n: int) -> Outcome<Seq<u32>> {
    if in_bounds(s, p, 4 * n) {
        done(Seq::new(n as nat, |i: int| le_u32(s, p + 4 * i)), p + 4 * n)
    } else {
        failed(HXAError::UnexpectedEof, p)
    }
}

/// Reading `n` signed 64-bit integers at `p`, all or none.
pub open spec fn i64_array_at(s: Seq<u8>, p: int, n: int) -> Outcome<Seq<i64>> {
    if in_bounds(s, p, 8 * n) {
        done(Seq::new(n as nat, |i: int| le_i64(s, p + 8 * i)), p + 8 * n)
    } else {
        failed(HXAError::UnexpectedEof, p)
    }
}

/// Reading `n` unsigned 64-bit integers at `p`, all or none.
pub open spec fn u64_array_at(s: Seq<u8>, p: int, n: int) -> Outcome<Seq<u64>> {
    if in_bounds(s, p, 8 * n) {
        done(Seq::new(n as nat, |i: int| le_u64(s, p + 8 * i)), p + 8 * n)
    } else {
        failed(HXAError::UnexpectedEof, p)
    }
}

/// `String::from_utf8` of the standard library. It gives a string exactly when
/// the bytes are valid UTF-8, and the string then holds the characters that
/// the bytes encode.
#[verifier::external_body]
fn string_from_utf8(bytes: Vec<u8>) -> (r: Option<String>)
    ensures
        r is Some <==> valid_utf8(bytes@),
        r matches Some(t) ==> t@ == decode_utf8(bytes@),
{
    match String::from_utf8(bytes) {
        Ok(t) => Some(t),
        Err(_) => None,
    }
}

/// The signed integer that the bits of `u` stand for.
pub fn to_signed_32(u: u32) -> (r: i32)
    ensures
        r == signed_32(u),
{
    if u < 0x8000_0000 {
        u as i32
    } else {
        ((u - 0x8000_0000) as i32) + i32::MIN
    }
}

/// The signed integer that the bits of `u` stand for.
pub fn to_signed_64(u: u64) -> (r: i64)
    ensures
        r == signed_64(u),
{
    if u < 0x8000_0000_0000_0000 {
        u as i64
    } else {
        ((u - 0x8000_0000_0000_0000) as i64) + i64::MIN
    }
}

/// A forward-only reader over the bytes of one stream.
///
/// Every read either gives its value and moves the cursor behind the bytes it
/// took, or fails and leaves the cursor where it was. The only reason for
/// which a fixed-width read fails is that fewer bytes are left than it needs.
pub struct ByteCursor {
    data: Vec<u8>,
    pos: usize,
}

impl ByteCursor {
    #[verifier::type_invariant]
    spec fn within(self) -> bool {
        self.pos <= self.data.len()
    }

    /// The bytes of the stream, read or not.
    pub closed spec fn bytes(self) -> Seq<u8> {
        self.data@
    }

    /// The number of bytes that have been read.
    pub closed spec fn position(self) -> int {
        self.pos as int
    }

    /// A cursor at the start of `data`.
    pub fn new(data: Vec<u8>) -> (cursor: ByteCursor)
        ensures
            cursor.bytes() == data@,
            cursor.position() == 0,
    {
        ByteCursor { data, pos: 0 }
    }

    /// The number of bytes that have been read. The cursor never stands
    /// behind the end of its stream.
    pub fn offset(&self) -> (n: usize)
        ensures
            n == self.position(),
            n <= self.bytes().len(),
    {
        proof {
            use_type_invariant(self);
        }
        self.pos
    }

    /// The number of bytes that are left to read.
    pub fn remaining(&self) -> (n: usize)
        ensures
            n == self.bytes().len() - self.position(),
    {
        proof {
            use_type_invariant(self);
        }
        self.data.len() - self.pos
    }

    /// Reads one byte.
    pub fn read_u8(&mut self) -> (r: Result<u8, HXAError>)
        ensures
            final(self).bytes() == old(self).bytes(),
            u8_at(old(self).bytes(), old(self).position()) == (Outcome {
                result: r,
                end: final(self).position(),
            }),
    {
        proof {
            use_type_invariant(&*self);
        }
        if self.data.len() - self.pos < 1 {
            return Err(HXAError::UnexpectedEof);
        }
        let b: u8 = self.data[self.pos];
        self.pos = self.pos + 1;
        Ok(b)
    }

    /// Reads an unsigned 32-bit integer, little-endian.
    pub fn read_u32(&mut self) -> (r: Result<u32, HXAError>)
        ensures
            final(self).bytes() == old(self).bytes(),
            u32_at(old(self).bytes(), old(self).position()) == (Outcome {
                result: r,
                end: final(self).position(),
            }),
    {
        proof {
            use_type_invariant(&*self);
        }
        if self.data.len() - self.pos < 4 {
            return Err(HXAError::UnexpectedEof);
        }
        let b0: u32 = self.data[self.pos] as u32;
        let b1: u32 = self.data[self.pos + 1] as u32;
        let b2: u32 = self.data[self.pos + 2] as u32;
        let b3: u32 = self.data[self.pos + 3] as u32;
        self.pos = self.pos + 4;
        Ok(b0 + b1 * 0x100 + b2 * 0x1_0000 + b3 * 0x100_0000)
    }

    /// Reads a signed 32-bit integer, little-endian, two's complement.
    pub fn read_i32(&mut self) -> (r: Result<i32, HXAError>)
        ensures
            final(self).bytes() == old(self).bytes(),
            i32_at(old(self).bytes(), old(self).position()) == (Outcome {
                result: r,
                end: final(self).position(),
            }),
    {
        match self.read_u32() {
            Ok(u) => Ok(to_signed_32(u)),
            Err(e) => Err(e),
        }
    }

    /// Reads an unsigned 64-bit integer, little-endian.
    pub fn read_u64(&mut self) -> (r: Result<u64, HXAError>)
        ensures
            final(self).bytes() == old(self).bytes(),
            u64_at(old(self).bytes(), old(self).position()) == (Outcome {
                result: r,
                end: final(self).position(),
            }),
    {
        proof {
            use_type_invariant(&*self);
        }
        if self.data.len() - self.pos < 8 {
            return Err(HXAError::UnexpectedEof);
        }
        let low: u32 = self.read_u32()?;
        let high: u32 = self.read_u32()?;
        Ok(low as u64 + (high as u64) * 0x1_0000_0000)
    }

    /// Reads a signed 64-bit integer, little-endian, two's complement.
    pub fn read_i64(&mut self) -> (r: Result<i64, HXAError>)
        ensures
            final(self).bytes() == old(self).bytes(),
            i64_at(old(self).bytes(), old(self).position()) == (Outcome {
                result: r,
                end: final(self).position(),
            }),
    {
        match self.read_u64() {
            Ok(u) => Ok(to_signed_64(u)),
            Err(e) => Err(e),
        }
    }

    /// Reads the IEEE-754 bit pattern of a single-precision number.
    pub fn read_f32(&mut self) -> (r: Result<u32, HXAError>)
        ensures
            final(self).bytes() == old(self).bytes(),
            u32_at(old(self).bytes(), old(self).position()) == (Outcome {
                result: r,
                end: final(self).position(),
            }),
    {
        self.read_u32()
    }

    /// Reads the IEEE-754 bit pattern of a double-precision number.
    pub fn read_f64(&mut self) -> (r: Result<u64, HXAError>)
        ensures
            final(self).bytes() == old(self).bytes(),
            u64_at(old(self).bytes(), old(self).position()) == (Outcome {
                result: r,
                end: final(self).position(),
            }),
    {
        self.read_u64()
    }

    /// Copies the next `n` bytes without moving the cursor.
    fn peek(&self, n: usize) -> (out: Vec<u8>)
        requires
            in_bounds(self.bytes(), self.position(), n as int),
        ensures
            out@ == self.bytes().subrange(self.position(), self.position() + n),
    {
        let total: usize = self.data.len();
        let mut out: Vec<u8> = Vec::new();
        let mut i: usize = 0;
        while i < n
            invariant
                i <= n,
                total == self.data@.len(),
                in_bounds(self.data@, self.pos as int, n as int),
                out@ == self.data@.subrange(self.pos as int, self.pos + i),
            decreases n - i,
        {
            out.push(self.data[self.pos + i]);
            i = i + 1;
        }
        out
    }

    /// Reads the next `n` bytes.
    pub fn read_exact(&mut self, n: usize) -> (r: Result<Vec<u8>, HXAError>)
        ensures
            final(self).bytes() == old(self).bytes(),
            bytes_at(old(self).bytes(), old(self).position(), n as int) == seq_outcome(
                r,
                final(self).position(),
            ),
    {
        proof {
            use_type_invariant(&*self);
        }
        if self.data.len() - self.pos < n {
            return Err(HXAError::UnexpectedEof);
        }
        let out: Vec<u8> = self.peek(n);
        self.pos = self.pos + n;
        Ok(out)
    }

    /// Reads the next `n` bytes as UTF-8 text.
    pub fn read_utf8(&mut self, n: usize) -> (r: Result<String, HXAError>)
        ensures
            final(self).bytes() == old(self).bytes(),
            utf8_at(old(self).bytes(), old(self).position(), n as int) == text_outcome(
                r,
                final(self).position(),
            ),
    {
        proof {
            use_type_invariant(&*self);
        }
        if self.data.len() - self.pos < n {
            return Err(HXAError::UnexpectedEof);
        }
        let raw: Vec<u8> = self.peek(n);
        match string_from_utf8(raw) {
            Some(text) => {
                self.pos = self.pos + n;
                Ok(text)
            },
            None => Err(HXAError::InvalidUtf8),
        }
    }

    /// Reads `count` bytes, or nothing if the stream is too short for all of
    /// them.
    pub fn read_u8_array(&mut self, count: u64) -> (r: Result<Vec<u8>, HXAError>)
        ensures
            final(self).bytes() == old(self).bytes(),
            bytes_at(old(self).bytes(), old(self).position(), count as int) == seq_outcome(
                r,
                final(self).position(),
            ),
    {
        let left: usize = self.remaining();
        if count > left as u64 {
            return Err(HXAError::UnexpectedEof);
        }
        self.read_exact(count as usize)
    }

    /// Reads `count` signed 32-bit integers, or nothing if the stream is too
    /// short for all of them.
    pub fn read_i32_array(&mut self, count: u64) -> (r: Result<Vec<i32>, HXAError>)
        ensures
            final(self).bytes() == old(self).bytes(),
            i32_array_at(old(self).bytes(), old(self).position(), count as int) == seq_outcome(
                r,
                final(self).position(),
            ),
    {
        let left: usize = self.remaining();
        if count > (left as u64) / 4 {
            return Err(HXAError::UnexpectedEof);
        }
        let ghost s = self.bytes();
        let ghost p = self.position();
        let mut out: Vec<i32> = Vec::new();
        let mut i: u64 = 0;
        while i < count
            invariant
                i <= count,
                self.bytes() == s,
                self.position() == p + 4 * i,
                in_bounds(s, p, 4 * count),
                out@ == Seq::new(i as nat, |k: int| le_i32(s, p + 4 * k)),
            decreases count - i,
        {
            let v: i32 = self.read_i32()?;
            out.push(v);
            i = i + 1;
            assert(out@ =~= Seq::new(i as nat, |k: int| le_i32(s, p + 4 * k)));
        }
        Ok(out)
    }

    /// Reads `count` unsigned 32-bit integers, or nothing if the stream is too
    /// short for all of them.
    pub fn read_u32_array(&mut self, count: u64) -> (r: Result<Vec<u32>, HXAError>)
        ensures
            final(self).bytes() == old(self).bytes(),
            u32_array_at(old(self).bytes(), old(self).position(), count as int) == seq_outcome(
                r,
                final(self).position(),
            ),
    {
        let left: usize = self.remaining();
        if count > (left as u64) / 4 {
            return Err(HXAError::UnexpectedEof);
        }
        let ghost s = self.bytes();
        let ghost p = self.position();
        let mut out: Vec<u32> = Vec::new();
        let mut i: u64 = 0;
        while i < count
            invariant
                i <= count,
                self.bytes() == s,
                self.position() == p + 4 * i,
                in_bounds(s, p, 4 * count),
                out@ == Seq::new(i as nat, |k: int| le_u32(s, p + 4 * k)),
            decreases count - i,
        {
            let v: u32 = self.read_u32()?;
            out.push(v);
            i = i + 1;
            assert(out@ =~= Seq::new(i as nat, |k: int| le_u32(s, p + 4 * k)));
        }
        Ok(out)
    }

    /// Reads `count` signed 64-bit integers, or nothing if the stream is too
    /// short for all of them.
    pub fn read_i64_array(&mut self, count: u64) -> (r: Result<Vec<i64>, HXAError>)
        ensures
            final(self).bytes() == old(self).bytes(),
            i64_array_at(old(self).bytes(), old(self).position(), count as int) == seq_outcome(
                r,
                final(self).position(),
            ),
    {
        let left: usize = self.remaining();
        if count > (left as u64) / 8 {
            return Err(HXAError::UnexpectedEof);
        }
        let ghost s = self.bytes();
        let ghost p = self.position();
        let mut out: Vec<i64> = Vec::new();
        let mut i: u64 = 0;
        while i < count
            invariant
                i <= count,
                self.bytes() == s,
                self.position() == p + 8 * i,
                in_bounds(s, p, 8 * count),
                out@ == Seq::new(i as nat, |k: int| le_i64(s, p + 8 * k)),
            decreases count - i,
        {
            let v: i64 = self.read_i64()?;
            out.push(v);
            i = i + 1;
            assert(out@ =~= Seq::new(i as nat, |k: int| le_i64(s, p + 8 * k)));
        }
        Ok(out)
    }

    /// Reads `count` unsigned 64-bit integers, or nothing if the stream is too
    /// short for all of them.
    pub fn read_u64_array(&mut self, count: u64) -> (r: Result<Vec<u64>, HXAError>)
        ensures
            final(self).bytes() == old(self).bytes(),
            u64_array_at(old(self).bytes(), old(self).position(), count as int) == seq_outcome(
                r,
                final(self).position(),
            ),
    {
        let left: usize = self.remaining();
        if count > (left as u64) / 8 {
            return Err(HXAError::UnexpectedEof);
        }
        let ghost s = self.bytes();
        let ghost p = self.position();
        let mut out: Vec<u64> = Vec::new();
        let mut i: u64 = 0;
        while i < count
            invariant
                i <= count,
                self.bytes() == s,
                self.position() == p + 8 * i,
                in_bounds(s, p, 8 * count),
                out@ == Seq::new(i as nat, |k: int| le_u64(s, p + 8 * k)),
            decreases count - i,
        {
            let v: u64 = self.read_u64()?;
            out.push(v);
            i = i + 1;
            assert(out@ =~= Seq::new(i as nat, |k: int| le_u64(s, p + 8 * k)));
        }
        Ok(out)
    }
}

} // verus!
