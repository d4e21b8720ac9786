//! Primitive big-endian codec over in-memory byte buffers: bounded reads from
//! a cursor, appending writes to a byte vector, and the 4-byte padding rule.

use vstd::prelude::*;
use vstd::utf8::{decode_utf8, valid_utf8};

verus! {

/// Bytes needed to extend a block of `n` bytes to a multiple of 4.
pub open spec fn spec_pad(n: int) -> int {
    (4 - n % 4) % 4
}

/// The big-endian value of a 2-byte sequence.
pub open spec fn be16(b: Seq<u8>) -> u16
    recommends
        b.len() == 2,
{
    (((b[0] as u16) << 8) | (b[1] as u16)) as u16
}

/// The two big-endian bytes of a 16-bit value.
pub open spec fn be16_bytes(x: u16) -> Seq<u8> {
    seq![((x >> 8) & 0xff) as u8, (x & 0xff) as u8]
}

/// The big-endian value of a 4-byte sequence.
pub open spec fn be32(b: Seq<u8>) -> u32
    recommends
        b.len() == 4,
{
    (((b[0] as u32) << 24) | ((b[1] as u32) << 16) | ((b[2] as u32) << 8) | (b[3] as u32)) as u32
}

/// The four big-endian bytes of a 32-bit value.
pub open spec fn be32_bytes(x: u32) -> Seq<u8> {
    seq![
        ((x >> 24) & 0xff) as u8,
        ((x >> 16) & 0xff) as u8,
        ((x >> 8) & 0xff) as u8,
        (x & 0xff) as u8,
    ]
}





/// Failure of a bounded read: the buffer ends too early, or fixed-length text
/// is not valid UTF-8.
#[derive(Debug, Clone, Copy, PartialEq, Eq, Structural)]
pub enum CodecError {
    UnexpectedEnd,
    InvalidText,
}

/// A read cursor over one received byte buffer.
pub struct Reader {
    buf: Vec<u8>,
    pos: usize,
}

impl Reader {
    /// The whole underlying buffer.
    pub closed spec fn data(&self) -> Seq<u8> {
        self.buf@
    }

    /// How many bytes have been consumed.
    pub closed spec fn position(&self) -> int {
        self.pos as int
    }

    pub open spec fn wf(&self) -> bool {
        0 <= self.position() <= self.data().len()
    }

    /// The bytes not yet consumed.
    pub open spec fn remaining(&self) -> Seq<u8> {
        self.data().skip(self.position())
    }

    pub fn new(buf: Vec<u8>) -> (r: Reader)
        ensures
            r.wf(),
            r.data() == buf@,
            r.position() == 0,
    {
        Reader { buf, pos: 0 }
    }

    /// How many bytes are left to read.
    pub fn left(&self) -> (n: usize)
        requires
            self.wf(),
        ensures
            n == self.remaining().len(),
    {
        self.buf.len() - self.pos
    }
}

/// Reads one byte.
pub fn read_u8(r: &mut Reader) -> (res: Result<u8, CodecError>)
    requires
        old(r).wf(),
    ensures
        final(r).wf(),
        final(r).data() == old(r).data(),
        match res {
            Ok(v) => old(r).remaining().len() >= 1 && v == old(r).remaining()[0] && final(r).position() == old(r).position() + 1,
            Err(e) => e == CodecError::UnexpectedEnd && old(r).remaining().len() < 1 && *final(r)
                == *old(r),
        },
{
    if r.pos < r.buf.len() {
        let v = r.buf[r.pos];
        r.pos = r.pos + 1;
        Ok(v)
    } else {
        Err(CodecError::UnexpectedEnd)
    }
}

/// Reads a 16-bit big-endian integer.
pub fn read_u16(r: &mut Reader) -> (res: Result<u16, CodecError>)
    requires
        old(r).wf(),
    ensures
        final(r).wf(),
        final(r).data() == old(r).data(),
        match res {
            Ok(v) => old(r).remaining().len() >= 2 && v == be16(old(r).remaining().take(2))
                && final(r).position() == old(r).position() + 2,
            Err(e) => e == CodecError::UnexpectedEnd && old(r).remaining().len() < 2 && *final(r)
                == *old(r),
        },
{
    if r.buf.len() - r.pos >= 2 {
        let b0 = r.buf[r.pos];
        let b1 = r.buf[r.pos + 1];
        r.pos = r.pos + 2;
        let v = ((b0 as u16) << 8) | (b1 as u16);
        proof {
            let b = old(r).remaining().take(2);
            assert(b[0] == b0 && b[1] == b1);
        }
        Ok(v)
    } else {
        Err(CodecError::UnexpectedEnd)
    }
}

/// Reads a 32-bit big-endian integer.
pub fn read_u32(r: &mut Reader) -> (res: Result<u32, CodecError>)
    requires
        old(r).wf(),
    ensures
        final(r).wf(),
        final(r).data() == old(r).data(),
        match res {
            Ok(v) => old(r).remaining().len() >= 4 && v == be32(old(r).remaining().take(4))
                && final(r).position() == old(r).position() + 4,
            Err(e) => e == CodecError::UnexpectedEnd && old(r).remaining().len() < 4 && *final(r)
                == *old(r),
        },
{
    if r.buf.len() - r.pos >= 4 {
        let b0 = r.buf[r.pos];
        let b1 = r.buf[r.pos + 1];
        let b2 = r.buf[r.pos + 2];
        let b3 = r.buf[r.pos + 3];
        r.pos = r.pos + 4;
        let v = ((b0 as u32) << 24) | ((b1 as u32) << 16) | ((b2 as u32) << 8) | (b3 as u32);
        proof {
            let b = old(r).remaining().take(4);
            assert(b[0] == b0 && b[1] == b1 && b[2] == b2 && b[3] == b3);
        }
        Ok(v)
    } else {
        Err(CodecError::UnexpectedEnd)
    }
}

/// Discards `n` bytes.
pub fn skip(r: &mut Reader, n: usize) -> (res: Result<(), CodecError>)
    requires
        old(r).wf(),
    ensures
        final(r).wf(),
        final(r).data() == old(r).data(),
        match res {
            Ok(()) => old(r).remaining().len() >= n && final(r).position() == old(r).position()
                + n,
            Err(e) => e == CodecError::UnexpectedEnd && old(r).remaining().len() < n && *final(r)
                == *old(r),
        },
{
    if r.buf.len() - r.pos >= n {
        r.pos = r.pos + n;
        Ok(())
    } else {
        Err(CodecError::UnexpectedEnd)
    }
}

/// Relies on `String::from_utf8`: it succeeds exactly when the bytes are
/// valid UTF-8, and the string's characters are then their decoding.
#[verifier::external_body]
fn utf8_bytes_to_string(b: Vec<u8>) -> (r: Option<String>)
    ensures
        match r {
            Some(s) => valid_utf8(b@) && s@ == decode_utf8(b@),
            None => !valid_utf8(b@),
        },
{
    String::from_utf8(b).ok()
}

/// Reads `n` bytes as text; exactly valid UTF-8 decodes.
pub fn read_string(r: &mut Reader, n: usize) -> (res: Result<String, CodecError>)
    requires
        old(r).wf(),
    ensures
        final(r).wf(),
        final(r).data() == old(r).data(),
        match res {
            Ok(s) => old(r).remaining().len() >= n && valid_utf8(
                old(r).remaining().take(n as int),
            ) && s@ == decode_utf8(old(r).remaining().take(n as int)) && final(r).position() == old(r).position() + n,
            Err(e) => *final(r) == *old(r) && (if old(r).remaining().len() < n {
                e == CodecError::UnexpectedEnd
            } else {
                e == CodecError::InvalidText && !valid_utf8(old(r).remaining().take(n as int))
            }),
        },
{
    if r.buf.len() - r.pos < n {
        return Err(CodecError::UnexpectedEnd);
    }
    let ghost text = old(r).remaining().take(n as int);
    let mut data: Vec<u8> = Vec::new();
    let mut i: usize = 0;
    while i < n
        invariant
            r == old(r),
            r.wf(),
            i <= n,
            n <= r.remaining().len(),
            r.pos + n <= r.buf.len(),
            text == r.remaining().take(n as int),
            data@ == text.take(i as int),
        decreases n - i,
    {
        assert(r.pos + n <= r.buf.len());
        let b = r.buf[r.pos + i];
        assert(b == text[i as int]);
        data.push(b);
        i = i + 1;
        proof {
            assert(data@ =~= text.take(i as int));
        }
    }
    proof {
        assert(data@ =~= text);
    }
    match utf8_bytes_to_string(data) {
        Some(s) => {
            r.pos = r.pos + n;
            Ok(s)
        },
        None => Err(CodecError::InvalidText),
    }
}

/// Appends one byte.
pub fn write_u8(w: &mut Vec<u8>, v: u8)
    ensures
        final(w)@ == old(w)@.push(v),
{
    w.push(v);
}

/// Appends a 16-bit integer, big-endian.
pub fn write_u16(w: &mut Vec<u8>, v: u16)
    ensures
        final(w)@ == old(w)@ + be16_bytes(v),
{
    w.push(((v >> 8) & 0xff) as u8);
    w.push((v & 0xff) as u8);
    proof {
        assert(final(w)@ =~= old(w)@ + be16_bytes(v));
    }
}

/// Appends a 32-bit integer, big-endian.
pub fn write_u32(w: &mut Vec<u8>, v: u32)
    ensures
        final(w)@ == old(w)@ + be32_bytes(v),
{
    w.push(((v >> 24) & 0xff) as u8);
    w.push(((v >> 16) & 0xff) as u8);
    w.push(((v >> 8) & 0xff) as u8);
    w.push((v & 0xff) as u8);
    proof {
        assert(final(w)@ =~= old(w)@ + be32_bytes(v));
    }
}

/// Padding after `n` bytes: the count that brings the total to a multiple of
/// 4, always one of 0 through 3.
pub fn pad(n: usize) -> (r: usize)
    ensures
        r == spec_pad(n as int),
        r < 4,
        (n + r) % 4 == 0,
{
    let r = (4 - (n % 4)) % 4;
    proof {
        vstd::arithmetic::div_mod::lemma_add_mod_noop(n as int, r as int, 4);
    }
    r
}

} // verus!
