//! Server-reported errors: a closed enumeration of seventeen kinds plus an
//! explicit fallback for codes this crate does not know, so an unrecognized
//! error never aborts dispatch.

use crate::bytes::{be16, be32, read_u16, read_u32, read_u8, CodecError, Reader};
use vstd::prelude::*;

verus! {

/// One error a server reports against a request; kinds that blame a resource
/// carry its 4-byte id.
#[derive(Debug, Clone, Copy, PartialEq, Eq, Structural)]
pub enum Error {
    Request,
    Value(u32),
    Window(u32),
    Pixmap(u32),
    Atom(u32),
    Cursor(u32),
    Font(u32),
    Match,
    Drawable(u32),
    Access,
    Alloc,
    Colormap(u32),
    GContext(u32),
    IDChoice(u32),
    Name,
    Length,
    Implementation,
    Unknown(u8),
}

/// The error a code byte and its 4-byte datum name.
pub open spec fn spec_error_of(code: u8, datum: u32) -> Error {
    match code {
        1u8 => Error::Request,
        2u8 => Error::Value(datum),
        3u8 => Error::Window(datum),
        4u8 => Error::Pixmap(datum),
        5u8 => Error::Atom(datum),
        6u8 => Error::Cursor(datum),
        7u8 => Error::Font(datum),
        8u8 => Error::Match,
        9u8 => Error::Drawable(datum),
        10u8 => Error::Access,
        11u8 => Error::Alloc,
        12u8 => Error::Colormap(datum),
        13u8 => Error::GContext(datum),
        14u8 => Error::IDChoice(datum),
        15u8 => Error::Name,
        16u8 => Error::Length,
        17u8 => Error::Implementation,
        c => Error::Unknown(c),
    }
}

impl Error {
    /// Decodes the body of an error frame, the leading tag byte already
    /// consumed: error code, sequence number, 4-byte datum, then the
    /// diagnostic major and minor opcode fields.
    pub fn read(r: &mut Reader) -> (res: Result<(u16, Error), CodecError>)
        requires
            old(r).wf(),
        ensures
            final(r).wf(),
            final(r).data() == old(r).data(),
            match res {
                Ok((seq, e)) => {
                    let b = old(r).remaining();
                    &&& b.len() >= 10
                    &&& seq == be16(b.subrange(1, 3))
                    &&& e == spec_error_of(b[0], be32(b.subrange(3, 7)))
                    &&& final(r).position() == old(r).position() + 10
                },
                Err(e) => e == CodecError::UnexpectedEnd && old(r).remaining().len() < 10
                    && *final(r) == *old(r),
            },
    {
        if r.left() < 10 {
            return Err(CodecError::UnexpectedEnd);
        }
        let ghost b = r.remaining();
        let code = read_u8(r).unwrap();
        let seq = read_u16(r).unwrap();
        let datum = read_u32(r).unwrap();
        let _major_opcode = read_u16(r).unwrap();
        let _minor_opcode = read_u8(r).unwrap();
        proof {
            assert(b.skip(1).take(2) =~= b.subrange(1, 3));
            assert(b.skip(3).take(4) =~= b.subrange(3, 7));
        }
        let e = match code {
            1 => Error::Request,
            2 => Error::Value(datum),
            3 => Error::Window(datum),
            4 => Error::Pixmap(datum),
            5 => Error::Atom(datum),
            6 => Error::Cursor(datum),
            7 => Error::Font(datum),
            8 => Error::Match,
            9 => Error::Drawable(datum),
            10 => Error::Access,
            11 => Error::Alloc,
            12 => Error::Colormap(datum),
            13 => Error::GContext(datum),
            14 => Error::IDChoice(datum),
            15 => Error::Name,
            16 => Error::Length,
            17 => Error::Implementation,
            c => Error::Unknown(c),
        };
        Ok((seq, e))
    }
}

} // verus!
