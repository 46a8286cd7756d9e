//! Byte-level reading: little-endian integers, zero-terminated text and a
//! cursor over a received datagram.

use crate::error::DecodeError;
use bytes::{Buf, BufMut};
use vstd::prelude::*;
use vstd::slice::slice_subrange;

verus! {

/// The two bytes of `s` from `at` on, read as a little-endian signed 16-bit
/// integer (two's complement).
pub open spec fn le_i16(s: Seq<u8>, at: int) -> i16 {
    let u: int = s[at] as int + 0x100 * s[at + 1] as int;
    if u < 0x8000 {
        u as i16
    } else {
        (u - 0x1_0000) as i16
    }
}

/// The four bytes of `s` from `at` on, read as a little-endian signed 32-bit
/// integer (two's complement).
pub open spec fn le_i32(s: Seq<u8>, at: int) -> i32 {
    let u: int = s[at] as int + 0x100 * s[at + 1] as int + 0x1_0000 * s[at + 2] as int
        + 0x100_0000 * s[at + 3] as int;
    if u < 0x8000_0000 {
        u as i32
    } else {
        (u - 0x1_0000_0000) as i32
    }
}

/// The eight bytes of `s` from `at` on, read as a little-endian unsigned
/// 64-bit integer.
pub open spec fn le_u64(s: Seq<u8>, at: int) -> u64 {
    (s[at] as int + 0x100 * s[at + 1] as int + 0x1_0000 * s[at + 2] as int + 0x100_0000 * s[at
        + 3] as int + 0x1_0000_0000 * s[at + 4] as int + 0x100_0000_0000 * s[at + 5] as int
        + 0x1_0000_0000_0000 * s[at + 6] as int + 0x100_0000_0000_0000 * s[at + 7] as int) as u64
}

/// The character that a byte of text stands for: the one whose code point is
/// the byte's value. No multi-byte decoding takes place.
pub open spec fn byte_char(b: u8) -> char {
    b as char
}

/// The index of the first zero byte of `s` at or after `at`. Where there is
/// none it is `s.len()`, or `at` itself if `at` lies past the end.
pub open spec fn text_end(s: Seq<u8>, at: int) -> int
    decreases s.len() - at,
{
    if at < 0 || at >= s.len() {
        at
    } else if s[at] == 0 {
        at
    } else {
        text_end(s, at + 1)
    }
}

/// The zero-terminated text that starts at `at`: one character for each byte
/// before the terminator.
pub open spec fn text(s: Seq<u8>, at: int) -> Seq<char> {
    Seq::new((text_end(s, at) - at) as nat, |i: int| byte_char(s[at + i]))
}

/// What `text_end` means: nothing before it is zero, and it is a zero byte
/// unless the buffer ends first.
pub proof fn lemma_text_end(s: Seq<u8>, at: int)
    requires
        0 <= at,
    ensures
        at <= text_end(s, at),
        at <= s.len() ==> text_end(s, at) <= s.len(),
        at > s.len() ==> text_end(s, at) == at,
        forall|j: int| at <= j < text_end(s, at) ==> s[j] != 0,
        text_end(s, at) < s.len() ==> s[text_end(s, at)] == 0,
    decreases s.len() - at,
{
    if at < s.len() && s[at] != 0 {
        lemma_text_end(s, at + 1);
    }
}

/// Cutting a buffer short at `cut` leaves a text that ends before the cut as
/// it was, and leaves any other text without its terminator.
pub proof fn lemma_text_end_cut(s: Seq<u8>, cut: int, at: int)
    requires
        0 <= at,
        0 <= cut <= s.len(),
    ensures
        text_end(s, at) < cut ==> text_end(s.take(cut), at) == text_end(s, at) && text(
            s.take(cut),
            at,
        ) == text(s, at),
        text_end(s, at) >= cut ==> text_end(s.take(cut), at) >= cut,
    decreases s.len() - at,
{
    lemma_text_end(s, at);
    lemma_text_end(s.take(cut), at);
    if at < cut && s[at] != 0 {
        lemma_text_end_cut(s, cut, at + 1);
    }
    if text_end(s, at) < cut {
        assert(text(s.take(cut), at) =~= text(s, at));
    }
}

/// `bytes::Buf::get_u8` on a cursor placed at the start of `chunk`: with at
/// least one byte remaining it returns the byte under the cursor.
#[verifier::external_body]
fn buf_get_u8(chunk: &[u8]) -> (value: u8)
    requires
        chunk@.len() >= 1,
    ensures
        value == chunk@[0],
{
    std::io::Cursor::new(chunk).get_u8()
}

/// `bytes::Buf::get_i16_le` on a cursor placed at the start of `chunk`: with
/// at least two bytes remaining it returns the first two as a little-endian
/// signed integer.
#[verifier::external_body]
fn buf_get_i16_le(chunk: &[u8]) -> (value: i16)
    requires
        chunk@.len() >= 2,
    ensures
        value == le_i16(chunk@, 0),
{
    std::io::Cursor::new(chunk).get_i16_le()
}

/// `bytes::Buf::get_i32_le` on a cursor placed at the start of `chunk`: with
/// at least four bytes remaining it returns the first four as a little-endian
/// signed integer.
#[verifier::external_body]
fn buf_get_i32_le(chunk: &[u8]) -> (value: i32)
    requires
        chunk@.len() >= 4,
    ensures
        value == le_i32(chunk@, 0),
{
    std::io::Cursor::new(chunk).get_i32_le()
}

/// `bytes::Buf::get_u64_le` on a cursor placed at the start of `chunk`: with
/// at least eight bytes remaining it returns the first eight as a
/// little-endian unsigned integer.
#[verifier::external_body]
fn buf_get_u64_le(chunk: &[u8]) -> (value: u64)
    requires
        chunk@.len() >= 8,
    ensures
        value == le_u64(chunk@, 0),
{
    std::io::Cursor::new(chunk).get_u64_le()
}

/// `bytes::BufMut::put_slice` on a `Vec<u8>`: appends the bytes of `src`. The
/// vector grows through `Vec::reserve`, which panics for a capacity above
/// `isize::MAX`; the bound keeps the new length, and twice that length, below
/// it.
#[verifier::external_body]
pub(crate) fn buf_put_slice(buf: &mut Vec<u8>, src: &[u8])
    requires
        2 * (old(buf)@.len() + src@.len()) + 64 <= isize::MAX,
    ensures
        final(buf)@ == old(buf)@ + src@,
{
    buf.put_slice(src)
}

/// `String::push`: appends one character.
#[verifier::external_body]
fn string_push(s: &mut String, c: char)
    ensures
        final(s)@ == old(s)@.push(c),
{
    s.push(c)
}

/// A read position in a byte buffer. The position never passes the end of the
/// buffer, and a read that fails leaves it where it was.
#[derive(Clone, Copy)]
pub struct Reader<'a> {
    data: &'a [u8],
    pos: usize,
}

impl<'a> Reader<'a> {
    #[verifier::type_invariant]
    spec fn in_bounds(self) -> bool {
        self.pos <= self.data@.len()
    }

    /// The whole buffer, read or not.
    pub closed spec fn buffer(&self) -> Seq<u8> {
        self.data@
    }

    /// The index in `buffer()` of the next byte to read.
    pub closed spec fn offset(&self) -> int {
        self.pos as int
    }

    /// A reader at the start of `data`.
    pub fn new(data: &'a [u8]) -> (r: Self)
        ensures
            r.buffer() == data@,
            r.offset() == 0,
    {
        Reader { data, pos: 0 }
    }

    /// The number of bytes read so far.
    pub fn position(&self) -> (p: usize)
        ensures
            p == self.offset(),
            p <= self.buffer().len(),
    {
        proof {
            use_type_invariant(self);
        }
        self.pos
    }

    /// The number of bytes not yet read.
    pub fn remaining(&self) -> (n: usize)
        ensures
            n == self.buffer().len() - self.offset(),
    {
        proof {
            use_type_invariant(self);
        }
        let len: usize = self.data.len();
        len - self.pos
    }

    /// The bytes not yet read.
    pub fn rest(&self) -> (chunk: &'a [u8])
        ensures
            chunk@ == self.buffer().subrange(self.offset(), self.buffer().len() as int),
    {
        proof {
            use_type_invariant(self);
        }
        slice_subrange(self.data, self.pos, self.data.len())
    }

    /// Hands out the unread bytes and moves `n` bytes on, if that many are
    /// left.
    fn advance(&mut self, n: usize) -> (r: Option<&'a [u8]>)
        ensures
            final(self).buffer() == old(self).buffer(),
            match r {
                Some(chunk) => {
                    &&& old(self).offset() + n <= old(self).buffer().len()
                    &&& chunk@ == old(self).buffer().subrange(
                        old(self).offset(),
                        old(self).buffer().len() as int,
                    )
                    &&& final(self).offset() == old(self).offset() + n
                },
                None => {
                    &&& old(self).offset() + n > old(self).buffer().len()
                    &&& final(self).offset() == old(self).offset()
                },
            },
    {
        proof {
            use_type_invariant(&*self);
        }
        let len: usize = self.data.len();
        if len - self.pos < n {
            return None;
        }
        let chunk = slice_subrange(self.data, self.pos, len);
        self.pos = self.pos + n;
        Some(chunk)
    }

    /// Reads one byte.
    pub fn get_u8(&mut self) -> (r: Result<u8, DecodeError>)
        ensures
            final(self).buffer() == old(self).buffer(),
            match r {
                Ok(v) => {
                    &&& old(self).offset() + 1 <= old(self).buffer().len()
                    &&& v == old(self).buffer()[old(self).offset()]
                    &&& final(self).offset() == old(self).offset() + 1
                },
                Err(e) => {
                    &&& e == DecodeError::Truncated
                    &&& old(self).offset() + 1 > old(self).buffer().len()
                    &&& final(self).offset() == old(self).offset()
                },
            },
    {
        match self.advance(1) {
            Some(chunk) => Ok(buf_get_u8(chunk)),
            None => Err(DecodeError::Truncated),
        }
    }

    /// Reads a little-endian signed 16-bit integer.
    pub fn get_i16_le(&mut self) -> (r: Result<i16, DecodeError>)
        ensures
            final(self).buffer() == old(self).buffer(),
            match r {
                Ok(v) => {
                    &&& old(self).offset() + 2 <= old(self).buffer().len()
                    &&& v == le_i16(old(self).buffer(), old(self).offset())
                    &&& final(self).offset() == old(self).offset() + 2
                },
                Err(e) => {
                    &&& e == DecodeError::Truncated
                    &&& old(self).offset() + 2 > old(self).buffer().len()
                    &&& final(self).offset() == old(self).offset()
                },
            },
    {
        match self.advance(2) {
            Some(chunk) => Ok(buf_get_i16_le(chunk)),
            None => Err(DecodeError::Truncated),
        }
    }

    /// Reads a little-endian signed 32-bit integer.
    pub fn get_i32_le(&mut self) -> (r: Result<i32, DecodeError>)
        ensures
            final(self).buffer() == old(self).buffer(),
            match r {
                Ok(v) => {
                    &&& old(self).offset() + 4 <= old(self).buffer().len()
                    &&& v == le_i32(old(self).buffer(), old(self).offset())
                    &&& final(self).offset() == old(self).offset() + 4
                },
                Err(e) => {
                    &&& e == DecodeError::Truncated
                    &&& old(self).offset() + 4 > old(self).buffer().len()
                    &&& final(self).offset() == old(self).offset()
                },
            },
    {
        match self.advance(4) {
            Some(chunk) => Ok(buf_get_i32_le(chunk)),
            None => Err(DecodeError::Truncated),
        }
    }

    /// Reads a little-endian unsigned 64-bit integer.
    pub fn get_u64_le(&mut self) -> (r: Result<u64, DecodeError>)
        ensures
            final(self).buffer() == old(self).buffer(),
            match r {
                Ok(v) => {
                    &&& old(self).offset() + 8 <= old(self).buffer().len()
                    &&& v == le_u64(old(self).buffer(), old(self).offset())
                    &&& final(self).offset() == old(self).offset() + 8
                },
                Err(e) => {
                    &&& e == DecodeError::Truncated
                    &&& old(self).offset() + 8 > old(self).buffer().len()
                    &&& final(self).offset() == old(self).offset()
                },
            },
    {
        match self.advance(8) {
            Some(chunk) => Ok(buf_get_u64_le(chunk)),
            None => Err(DecodeError::Truncated),
        }
    }
}

/// Reads a zero-terminated text: one character for each byte up to the first
/// zero byte, which is consumed too. The scan stops at the end of the buffer:
/// without a terminator the text is truncated and the reader stays where it
/// was.
pub fn get_string(cur: &mut Reader) -> (r: Result<String, DecodeError>)
    ensures
        final(cur).buffer() == old(cur).buffer(),
        match r {
            Ok(t) => {
                &&& text_end(old(cur).buffer(), old(cur).offset()) < old(cur).buffer().len()
                &&& t@ == text(old(cur).buffer(), old(cur).offset())
                &&& final(cur).offset() == text_end(old(cur).buffer(), old(cur).offset()) + 1
            },
            Err(e) => {
                &&& e == DecodeError::Truncated
                &&& text_end(old(cur).buffer(), old(cur).offset()) >= old(cur).buffer().len()
                &&& final(cur).offset() == old(cur).offset()
            },
        },
{
    let ghost buf = cur.buffer();
    let ghost start = cur.offset();
    let mut scan = *cur;
    let mut s = String::new();
    loop
        invariant
            buf == old(cur).buffer(),
            start == old(cur).offset(),
            scan.buffer() == buf,
            cur.buffer() == buf,
            cur.offset() == start,
            0 <= start <= scan.offset(),
            text_end(buf, start) == text_end(buf, scan.offset()),
            s@ == Seq::new((scan.offset() - start) as nat, |i: int| byte_char(buf[start + i])),
        decreases buf.len() - scan.offset(),
    {
        match scan.get_u8() {
            Err(e) => {
                return Err(e);
            },
            Ok(b) => {
                if b == 0 {
                    *cur = scan;
                    return Ok(s);
                }
                string_push(&mut s, b as char);
            },
        }
    }
}

} // verus!
