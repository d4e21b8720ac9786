//! Event decoding, table-driven by the leading code byte. A code this crate
//! does not know decodes to an explicit unknown event carrying the raw frame,
//! never to a failure: a strange event must not bring dispatch down.

use crate::bytes::{be16, be32};
use vstd::prelude::*;

verus! {

/// The event code of a region needing to be redrawn.
pub const EVENT_CODE_EXPOSE: u8 = 12;

/// The event code of a window having become viewable.
pub const EVENT_CODE_MAP_NOTIFY: u8 = 19;

/// One event the server pushed; events answer no request and carry no
/// correlation to the pending table.
#[derive(Debug, PartialEq)]
pub enum Event {
    /// A region of a window must be redrawn.
    Expose { window: u32, x: u16, y: u16, width: u16, height: u16, count: u16 },
    /// A window became viewable.
    MapNotify { event: u32, window: u32, override_redirect: bool },
    /// An event code this crate has no table entry for; the raw frame is kept.
    Unknown { code: u8, raw: Vec<u8> },
}

/// Whether `e` is the decoding of the 32-byte event frame `b`: a known code
/// byte selects its typed event, any other code keeps the raw frame.
pub open spec fn event_decodes(b: Seq<u8>, e: Event) -> bool {
    if b[0] == EVENT_CODE_EXPOSE {
        e == (Event::Expose {
            window: be32(b.subrange(4, 8)),
            x: be16(b.subrange(8, 10)),
            y: be16(b.subrange(10, 12)),
            width: be16(b.subrange(12, 14)),
            height: be16(b.subrange(14, 16)),
            count: be16(b.subrange(16, 18)),
        })
    } else if b[0] == EVENT_CODE_MAP_NOTIFY {
        e == (Event::MapNotify {
            event: be32(b.subrange(4, 8)),
            window: be32(b.subrange(8, 12)),
            override_redirect: b[12] != 0,
        })
    } else {
        e matches Event::Unknown { code, raw } && code == b[0] && raw@ == b
    }
}

impl Event {
    /// Decodes one fixed 32-byte event frame.
    pub fn read(frame: Vec<u8>) -> (e: Event)
        requires
            frame@.len() == 32,
        ensures
            event_decodes(frame@, e),
    {
        let code = frame[0];
        if code == EVENT_CODE_EXPOSE {
            let window = read_word(&frame, 4);
            let x = read_half(&frame, 8);
            let y = read_half(&frame, 10);
            let width = read_half(&frame, 12);
            let height = read_half(&frame, 14);
            let count = read_half(&frame, 16);
            Event::Expose { window, x, y, width, height, count }
        } else if code == EVENT_CODE_MAP_NOTIFY {
            let event = read_word(&frame, 4);
            let window = read_word(&frame, 8);
            let override_redirect = frame[12] != 0;
            Event::MapNotify { event, window, override_redirect }
        } else {
            Event::Unknown { code, raw: frame }
        }
    }
}

/// The 32-bit big-endian word at byte offset `at` of a frame.
fn read_word(frame: &Vec<u8>, at: usize) -> (v: u32)
    requires
        at + 4 <= frame.len(),
    ensures
        v == be32(frame@.subrange(at as int, at + 4)),
{
    let ghost b = frame@.subrange(at as int, at + 4);
    let v = ((frame[at] as u32) << 24) | ((frame[at + 1] as u32) << 16) | ((frame[at + 2] as u32)
        << 8) | (frame[at + 3] as u32);
    proof {
        assert(b[0] == frame@[at as int] && b[1] == frame@[at + 1] && b[2] == frame@[at + 2] && b[3]
            == frame@[at + 3]);
    }
    v
}

/// The 16-bit big-endian half-word at byte offset `at` of a frame.
fn read_half(frame: &Vec<u8>, at: usize) -> (v: u16)
    requires
        at + 2 <= frame.len(),
    ensures
        v == be16(frame@.subrange(at as int, at + 2)),
{
    let ghost b = frame@.subrange(at as int, at + 2);
    let v = ((frame[at] as u16) << 8) | (frame[at + 1] as u16);
    proof {
        assert(b[0] == frame@[at as int] && b[1] == frame@[at + 1]);
    }
    v
}

} // verus!
