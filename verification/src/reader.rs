//! The primitive reader: sequential, forward-only little-endian reads
//! of fixed-width scalars and null-terminated text from a byte buffer.
//!
//! Every read is specified against the spec-level parsers below, which
//! take the whole buffer and a position and return either the decoded
//! value with the position after it, or the error the read must raise.
//! Running out of bytes mid-primitive is always `NotEnoughBytes`,
//! distinct from every other failure.

use vstd::prelude::*;
use vstd::utf8::{decode_utf8, valid_utf8};

use crate::ParseError;

verus! {

/// A 16-bit little-endian integer read from `b` at `i`.
pub open spec fn spec_le_u16(b: Seq<u8>, i: int) -> u16 {
    (b[i] as u16) | ((b[i + 1] as u16) << 8)
}

/// A 32-bit little-endian integer read from `b` at `i`.
pub open spec fn spec_le_u32(b: Seq<u8>, i: int) -> u32 {
    (b[i] as u32) | ((b[i + 1] as u32) << 8) | ((b[i + 2] as u32) << 16) | ((b[i + 3] as u32)
        << 24)
}

/// A 64-bit little-endian integer read from `b` at `i`.
pub open spec fn spec_le_u64(b: Seq<u8>, i: int) -> u64 {
    (spec_le_u32(b, i) as u64) | ((spec_le_u32(b, i + 4) as u64) << 32)
}

pub open spec fn spec_read_u8(b: Seq<u8>, pos: int) -> Result<(u8, int), ParseError> {
    if pos + 1 <= b.len() {
        Ok((b[pos], pos + 1))
    } else {
        Err(ParseError::NotEnoughBytes)
    }
}

pub open spec fn spec_read_u16(b: Seq<u8>, pos: int) -> Result<(u16, int), ParseError> {
    if pos + 2 <= b.len() {
        Ok((spec_le_u16(b, pos), pos + 2))
    } else {
        Err(ParseError::NotEnoughBytes)
    }
}

pub open spec fn spec_read_u32(b: Seq<u8>, pos: int) -> Result<(u32, int), ParseError> {
    if pos + 4 <= b.len() {
        Ok((spec_le_u32(b, pos), pos + 4))
    } else {
        Err(ParseError::NotEnoughBytes)
    }
}

/// A signed 32-bit read: the two's-complement reinterpretation of the
/// unsigned little-endian value.
pub open spec fn spec_read_i32(b: Seq<u8>, pos: int) -> Result<(i32, int), ParseError> {
    if pos + 4 <= b.len() {
        Ok((spec_le_u32(b, pos) as i32, pos + 4))
    } else {
        Err(ParseError::NotEnoughBytes)
    }
}

pub open spec fn spec_read_u64(b: Seq<u8>, pos: int) -> Result<(u64, int), ParseError> {
    if pos + 8 <= b.len() {
        Ok((spec_le_u64(b, pos), pos + 8))
    } else {
        Err(ParseError::NotEnoughBytes)
    }
}

/// The index of the first nul byte at or after `pos`, or `b.len()` if
/// there is none.
pub open spec fn spec_find_nul(b: Seq<u8>, pos: int) -> int
    decreases b.len() - pos,
{
    if pos < 0 || pos >= b.len() {
        b.len() as int
    } else if b[pos] == 0 {
        pos
    } else {
        spec_find_nul(b, pos + 1)
    }
}

/// The first nul at or after `pos` lies between `pos` and the end of
/// the buffer, is a nul, and no nul precedes it.
pub proof fn lemma_find_nul(b: Seq<u8>, pos: int)
    requires
        0 <= pos <= b.len(),
    ensures
        pos <= spec_find_nul(b, pos) <= b.len(),
        spec_find_nul(b, pos) < b.len() ==> b[spec_find_nul(b, pos)] == 0,
        forall|k: int| pos <= k < spec_find_nul(b, pos) ==> b[k] != 0,
    decreases b.len() - pos,
{
    if pos < b.len() && b[pos] != 0 {
        lemma_find_nul(b, pos + 1);
    }
}

/// Null-terminated text: the bytes up to the first nul decode as UTF-8,
/// the nul is consumed but excluded from the text. No nul before the
/// end of the buffer is truncation; invalid UTF-8 is `StringError`.
pub open spec fn spec_read_cstring(b: Seq<u8>, pos: int) -> Result<(Seq<char>, int), ParseError> {
    let j = spec_find_nul(b, pos);
    if j >= b.len() {
        Err(ParseError::NotEnoughBytes)
    } else {
        let content = b.subrange(pos, j);
        if valid_utf8(content) {
            Ok((decode_utf8(content), j + 1))
        } else {
            Err(ParseError::StringError)
        }
    }
}

/// Skipping `n` bytes: the cursor moves forward without interpreting
/// the bytes, failing only when fewer than `n` remain.
pub open spec fn spec_skip(b: Seq<u8>, pos: int, n: int) -> Result<((), int), ParseError> {
    if pos + n <= b.len() {
        Ok(((), pos + n))
    } else {
        Err(ParseError::NotEnoughBytes)
    }
}

/// Builds a `String` from raw bytes, checking UTF-8 validity.
///
/// Relies on `String::from_utf8`: it returns `Ok` exactly when the
/// bytes are valid UTF-8, and the resulting string holds exactly the
/// characters those bytes encode.
#[verifier::external_body]
fn utf8_to_string(bytes: Vec<u8>) -> (r: Option<String>)
    ensures
        match r {
            Some(s) => valid_utf8(bytes@) && s@ == decode_utf8(bytes@),
            None => !valid_utf8(bytes@),
        },
{
    match String::from_utf8(bytes) {
        Ok(s) => Some(s),
        Err(_) => None,
    }
}

/// A sequential byte source: an in-memory buffer with a forward-only
/// cursor. Reads consume bytes strictly forward; there is no seeking.
pub struct ByteSource {
    data: Vec<u8>,
    pos: usize,
}

impl ByteSource {
    /// The whole underlying buffer.
    pub closed spec fn spec_data(&self) -> Seq<u8> {
        self.data@
    }

    /// The cursor: the position of the next unread byte.
    pub closed spec fn spec_pos(&self) -> int {
        self.pos as int
    }

    /// The buffer is held in memory, so its length fits in `usize`.
    pub proof fn lemma_len_bound(&self)
        ensures
            self.spec_data().len() <= usize::MAX,
    {
        broadcast use vstd::std_specs::vec::axiom_spec_len;

        assert(vstd::std_specs::vec::spec_vec_len(&self.data) == self.data@.len());
    }

    pub fn new(data: Vec<u8>) -> (s: ByteSource)
        ensures
            s.spec_data() == data@,
            s.spec_pos() == 0,
    {
        ByteSource { data, pos: 0 }
    }

    pub fn position(&self) -> (p: usize)
        ensures
            p as int == self.spec_pos(),
    {
        self.pos
    }

    pub fn read_u8(&mut self) -> (r: Result<u8, ParseError>)
        ensures
            final(self).spec_data() == old(self).spec_data(),
            old(self).spec_pos() <= final(self).spec_pos(),
            match r {
                Ok(v) => spec_read_u8(final(self).spec_data(), old(self).spec_pos()) == Ok::<
                    (u8, int),
                    ParseError,
                >((v, final(self).spec_pos())),
                Err(e) => spec_read_u8(final(self).spec_data(), old(self).spec_pos()) == Err::<
                    (u8, int),
                    ParseError,
                >(e) && final(self).spec_pos() == old(self).spec_pos(),
            },
    {
        if self.pos < self.data.len() {
            let v = self.data[self.pos];
            self.pos = self.pos + 1;
            Ok(v)
        } else {
            Err(ParseError::NotEnoughBytes)
        }
    }

    pub fn read_u16(&mut self) -> (r: Result<u16, ParseError>)
        ensures
            final(self).spec_data() == old(self).spec_data(),
            old(self).spec_pos() <= final(self).spec_pos(),
            match r {
                Ok(v) => spec_read_u16(final(self).spec_data(), old(self).spec_pos()) == Ok::<
                    (u16, int),
                    ParseError,
                >((v, final(self).spec_pos())),
                Err(e) => spec_read_u16(final(self).spec_data(), old(self).spec_pos()) == Err::<
                    (u16, int),
                    ParseError,
                >(e) && final(self).spec_pos() == old(self).spec_pos(),
            },
    {
        if self.data.len() >= 2 && self.pos <= self.data.len() - 2 {
            let b0 = self.data[self.pos];
            let b1 = self.data[self.pos + 1];
            self.pos = self.pos + 2;
            Ok((b0 as u16) | ((b1 as u16) << 8))
        } else {
            Err(ParseError::NotEnoughBytes)
        }
    }

    pub fn read_u32(&mut self) -> (r: Result<u32, ParseError>)
        ensures
            final(self).spec_data() == old(self).spec_data(),
            old(self).spec_pos() <= final(self).spec_pos(),
            match r {
                Ok(v) => spec_read_u32(final(self).spec_data(), old(self).spec_pos()) == Ok::<
                    (u32, int),
                    ParseError,
                >((v, final(self).spec_pos())),
                Err(e) => spec_read_u32(final(self).spec_data(), old(self).spec_pos()) == Err::<
                    (u32, int),
                    ParseError,
                >(e) && final(self).spec_pos() == old(self).spec_pos(),
            },
    {
        if self.data.len() >= 4 && self.pos <= self.data.len() - 4 {
            let b0 = self.data[self.pos];
            let b1 = self.data[self.pos + 1];
            let b2 = self.data[self.pos + 2];
            let b3 = self.data[self.pos + 3];
            self.pos = self.pos + 4;
            Ok((b0 as u32) | ((b1 as u32) << 8) | ((b2 as u32) << 16) | ((b3 as u32) << 24))
        } else {
            Err(ParseError::NotEnoughBytes)
        }
    }

    pub fn read_i32(&mut self) -> (r: Result<i32, ParseError>)
        ensures
            final(self).spec_data() == old(self).spec_data(),
            old(self).spec_pos() <= final(self).spec_pos(),
            match r {
                Ok(v) => spec_read_i32(final(self).spec_data(), old(self).spec_pos()) == Ok::<
                    (i32, int),
                    ParseError,
                >((v, final(self).spec_pos())),
                Err(e) => spec_read_i32(final(self).spec_data(), old(self).spec_pos()) == Err::<
                    (i32, int),
                    ParseError,
                >(e) && final(self).spec_pos() == old(self).spec_pos(),
            },
    {
        match self.read_u32() {
            Ok(v) => Ok(#[verifier::truncate] (v as i32)),
            Err(e) => Err(e),
        }
    }

    pub fn read_u64(&mut self) -> (r: Result<u64, ParseError>)
        ensures
            final(self).spec_data() == old(self).spec_data(),
            old(self).spec_pos() <= final(self).spec_pos(),
            match r {
                Ok(v) => spec_read_u64(final(self).spec_data(), old(self).spec_pos()) == Ok::<
                    (u64, int),
                    ParseError,
                >((v, final(self).spec_pos())),
                Err(e) => spec_read_u64(final(self).spec_data(), old(self).spec_pos()) == Err::<
                    (u64, int),
                    ParseError,
                >(e) && final(self).spec_pos() == old(self).spec_pos(),
            },
    {
        if self.data.len() >= 8 && self.pos <= self.data.len() - 8 {
            let lo = match self.read_u32() {
                Ok(v) => v,
                Err(e) => { return Err(e) },
            };
            let hi = match self.read_u32() {
                Ok(v) => v,
                Err(e) => { return Err(e) },
            };
            Ok((lo as u64) | ((hi as u64) << 32))
        } else {
            Err(ParseError::NotEnoughBytes)
        }
    }

    /// Discards `n` bytes without interpreting them.
    pub fn skip(&mut self, n: usize) -> (r: Result<(), ParseError>)
        ensures
            final(self).spec_data() == old(self).spec_data(),
            old(self).spec_pos() <= final(self).spec_pos(),
            match r {
                Ok(v) => spec_skip(final(self).spec_data(), old(self).spec_pos(), n as int) == Ok::<
                    ((), int),
                    ParseError,
                >((v, final(self).spec_pos())),
                Err(e) => spec_skip(final(self).spec_data(), old(self).spec_pos(), n as int) == Err::<
                    ((), int),
                    ParseError,
                >(e) && final(self).spec_pos() == old(self).spec_pos(),
            },
    {
        if self.data.len() >= n && self.pos <= self.data.len() - n {
            self.pos = self.pos + n;
            Ok(())
        } else {
            Err(ParseError::NotEnoughBytes)
        }
    }

    /// Reads null-terminated text: bytes up to and including the first
    /// nul, returning the text without the nul.
    pub fn read_cstring(&mut self) -> (r: Result<String, ParseError>)
        ensures
            final(self).spec_data() == old(self).spec_data(),
            old(self).spec_pos() <= final(self).spec_pos(),
            match r {
                Ok(s) => spec_read_cstring(final(self).spec_data(), old(self).spec_pos()) == Ok::<
                    (Seq<char>, int),
                    ParseError,
                >((s@, final(self).spec_pos())),
                Err(e) => spec_read_cstring(final(self).spec_data(), old(self).spec_pos()) == Err::<
                    (Seq<char>, int),
                    ParseError,
                >(e),
            },
    {
        let ghost b = self.data@;
        let ghost p0 = self.pos as int;
        if self.pos >= self.data.len() {
            proof {
                assert(spec_find_nul(b, p0) == b.len());
            }
            return Err(ParseError::NotEnoughBytes);
        }
        let mut buf: Vec<u8> = Vec::new();
        proof {
            assert(buf@ =~= b.subrange(p0, p0));
        }
        loop
            invariant
                b == old(self).spec_data(),
                p0 == old(self).spec_pos(),
                self.data@ == b,
                p0 <= self.pos as int <= b.len(),
                p0 >= 0,
                spec_find_nul(b, p0) == spec_find_nul(b, self.pos as int),
                buf@ == b.subrange(p0, self.pos as int),
                forall|k: int| p0 <= k < self.pos as int ==> b[k] != 0,
            decreases b.len() - self.pos,
        {
            if self.pos >= self.data.len() {
                proof {
                    assert(spec_find_nul(b, self.pos as int) == b.len());
                }
                return Err(ParseError::NotEnoughBytes);
            }
            let byte = self.data[self.pos];
            if byte == 0 {
                proof {
                    assert(spec_find_nul(b, self.pos as int) == self.pos as int);
                }
                self.pos = self.pos + 1;
                match utf8_to_string(buf) {
                    Some(s) => {
                        return Ok(s);
                    },
                    None => {
                        return Err(ParseError::StringError);
                    },
                }
            }
            self.pos = self.pos + 1;
            buf.push(byte);
            proof {
                assert(buf@ =~= b.subrange(p0, self.pos as int));
            }
        }
    }
}

} // verus!
