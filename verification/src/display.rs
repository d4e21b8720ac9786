//! The connection core: the wrapping sequence counter, the pending-request
//! table, and the dispatcher that classifies each incoming frame as an
//! error, a reply or an event and correlates errors and replies to the
//! requests that caused them. The transport stays outside: a caller sends
//! the bytes this core hands out and feeds back every frame it reads.

use crate::bytes::{be16, be32};
use crate::error;
use crate::event;
use crate::event::event_decodes;
use std::collections::HashMap;
use vstd::arithmetic::div_mod::{
    lemma_add_mod_noop, lemma_mod_self_0, lemma_small_mod, lemma_sub_mod_noop,
};
use vstd::prelude::*;

verus! {

broadcast use vstd::std_specs::hash::group_hash_axioms;

/// One classified frame of the response stream.
#[derive(Debug, PartialEq)]
pub enum Message {
    /// A server error, with the sequence number it answers.
    Error(u16, error::Error),
    /// A reply, with the sequence number it answers and the raw frame, to be
    /// decoded by the shape its request expects.
    Reply(u16, Vec<u8>),
    /// An event; events answer no request.
    Event(event::Event),
}

/// Bytes of the fixed frame every response starts with.
pub const FRAME_LEN: usize = 32;

/// How many bytes follow the fixed 32 of a reply frame: the declared length
/// word counts trailing 4-byte units.
pub fn reply_extra_len(head: &Vec<u8>) -> (n: u64)
    requires
        head@.len() >= 8,
    ensures
        n == 4 * be32(head@.subrange(4, 8)),
{
    let ghost b = head@;
    let w = ((head[4] as u32) << 24) | ((head[5] as u32) << 16) | ((head[6] as u32) << 8) | (
    head[7] as u32);
    proof {
        assert(b.subrange(4, 8)[0] == b[4] && b.subrange(4, 8)[1] == b[5] && b.subrange(4, 8)[2]
            == b[6] && b.subrange(4, 8)[3] == b[7]);
    }
    4 * (w as u64)
}

/// Classifies one frame by its first byte: 0 is an error, 1 is a reply,
/// anything else an event. Total: every frame of the required shape
/// classifies.
pub fn classify_frame(frame: Vec<u8>) -> (msg: Message)
    requires
        frame@.len() >= FRAME_LEN,
        frame@[0] != 1 ==> frame@.len() == FRAME_LEN,
    ensures
        ({
            let b = frame@;
            if b[0] == 0 {
                msg == Message::Error(
                    be16(b.subrange(2, 4)),
                    error::spec_error_of(b[1], be32(b.subrange(4, 8))),
                )
            } else if b[0] == 1 {
                msg matches Message::Reply(seq, payload) && seq == be16(b.subrange(2, 4))
                    && payload@ == b
            } else {
                msg matches Message::Event(ev) && event_decodes(b, ev)
            }
        }),
{
    let ghost b = frame@;
    let tag = frame[0];
    if tag == crate::proto::RESPONSE_ERROR {
        let mut r = crate::bytes::Reader::new(frame);
        crate::bytes::read_u8(&mut r).unwrap();
        proof {
            assert(r.remaining() =~= b.skip(1));
        }
        let (seq, e) = error::Error::read(&mut r).unwrap();
        proof {
            assert(b.skip(1).subrange(1, 3) =~= b.subrange(2, 4));
            assert(b.skip(1).subrange(3, 7) =~= b.subrange(4, 8));
            assert(b.skip(1)[0] == b[1]);
        }
        Message::Error(seq, e)
    } else if tag == crate::proto::RESPONSE_REPLY {
        let seq = ((frame[2] as u16) << 8) | (frame[3] as u16);
        proof {
            assert(b.subrange(2, 4)[0] == b[2] && b.subrange(2, 4)[1] == b[3]);
        }
        Message::Reply(seq, frame)
    } else {
        Message::Event(event::Event::read(frame))
    }
}

/// What one decoded reply frame expects to be decoded by.
#[derive(Debug, Clone, Copy, PartialEq, Eq, Structural)]
pub enum ReplyKind {
    GetWindowAttributes,
    QueryTree,
}

/// What to do with an error frame whose sequence number matches no pending
/// entry: treat the stream as desynchronized and fail, or surface the error
/// out of band and keep going.
#[derive(Debug, Clone, Copy, PartialEq, Eq, Structural)]
pub enum UnmatchedErrorPolicy {
    Fatal,
    OutOfBand,
}

/// What the dispatcher did with one frame.
#[derive(Debug, PartialEq)]
pub enum DispatchOutcome {
    /// The waiter of this sequence number gets the raw reply frame, to be
    /// decoded by the kind it registered.
    ReplyResolved(u16, ReplyKind, Vec<u8>),
    /// The waiter of this sequence number gets the server's error.
    ErrorResolved(u16, error::Error),
    /// An error that answers no pending request, surfaced out of band.
    OutOfBandError(u16, error::Error),
    /// An event, to be forwarded to the event consumer.
    Event(event::Event),
}

/// A fatal dispatch fault: a reply or error names a sequence number no
/// pending entry holds, so a frame was misparsed upstream and the stream can
/// no longer be trusted.
#[derive(Debug, Clone, Copy, PartialEq, Eq, Structural)]
pub enum DispatchError {
    Desync(u16),
}

/// An entry of the pending table: the reply shape the request expects, and
/// the ghost index of the allocation that created the entry.
pub struct PendingEntry {
    pub kind: ReplyKind,
    pub alloc: Ghost<nat>,
}

/// The sequence number the `i`th allocation hands out: 1 first, then one
/// more per request, wrapping from 65535 back to 1.
pub open spec fn spec_seq_of(i: nat) -> u16 {
    (((i % 65535) + 1) as u16)
}

/// The connection core: the sequence counter and the pending-request table.
/// Sending a request means allocating the next number and, when a reply is
/// expected, registering the waiter before the bytes go out; each incoming
/// frame then resolves, bypasses or faults through `handle_frame`.
pub struct Connection {
    next_seq: u16,
    n_alloc: Ghost<nat>,
    pending: HashMap<u16, PendingEntry>,
    policy: UnmatchedErrorPolicy,
}

impl Connection {
    /// The registered waiters: sequence number to expected reply shape.
    pub closed spec fn pending(&self) -> Map<u16, ReplyKind> {
        self.pending@.map_values(|e: PendingEntry| e.kind)
    }

    /// The sequence number the next request will get.
    pub closed spec fn next_sequence(&self) -> u16 {
        self.next_seq
    }

    /// How many sequence numbers have been handed out.
    pub closed spec fn allocated(&self) -> nat {
        self.n_alloc@
    }

    /// At which allocation the pending entry of `s` was created.
    pub closed spec fn alloc_of(&self, s: u16) -> nat {
        self.pending@[s].alloc@
    }

    /// The configured treatment of unmatched errors.
    pub closed spec fn spec_policy(&self) -> UnmatchedErrorPolicy {
        self.policy
    }

    pub open spec fn wf(&self) -> bool {
        &&& self.next_sequence() == spec_seq_of(self.allocated())
        &&& forall|s: u16|
            self.pending().dom().contains(s) ==> #[trigger] self.alloc_of(s) < self.allocated()
                && s == spec_seq_of(self.alloc_of(s))
    }

    /// A fresh connection: the first request gets sequence number 1, nothing
    /// is pending.
    pub fn new(policy: UnmatchedErrorPolicy) -> (c: Connection)
        ensures
            c.wf(),
            c.next_sequence() == 1,
            c.allocated() == 0,
            c.pending() == Map::<u16, ReplyKind>::empty(),
            c.spec_policy() == policy,
    {
        let c = Connection {
            next_seq: 1,
            n_alloc: Ghost(0),
            pending: HashMap::new(),
            policy,
        };
        proof {
            lemma_small_mod(0, 65535);
            assert(c.pending() =~= Map::<u16, ReplyKind>::empty());
        }
        c
    }

    pub fn policy(&self) -> (p: UnmatchedErrorPolicy)
        ensures
            p == self.spec_policy(),
    {
        self.policy
    }

    /// Whether the number the next request would get is free of any pending
    /// entry; callers check this before registering.
    pub fn can_register(&self) -> (free: bool)
        ensures
            free == !self.pending().dom().contains(self.next_sequence()),
    {
        let free = !self.pending.contains_key(&self.next_seq);
        proof {
            assert(self.pending@.dom() =~= self.pending().dom());
        }
        free
    }

    /// Advances the counter by one, wrapping from 65535 back to 1.
    fn advance(&mut self) -> (seq: u16)
        requires
            old(self).wf(),
        ensures
            seq == old(self).next_sequence(),
            1 <= seq <= 65535,
            final(self).next_sequence() == (if seq == 65535 {
                1u16
            } else {
                (seq + 1) as u16
            }),
            final(self).allocated() == old(self).allocated() + 1,
            final(self).wf(),
            final(self).pending@ == old(self).pending@,
            final(self).pending() == old(self).pending(),
            final(self).spec_policy() == old(self).spec_policy(),
            final(self).next_sequence() == spec_seq_of(old(self).allocated() + 1),
    {
        let seq = self.next_seq;
        proof {
            let n = self.n_alloc@ as int;
            lemma_add_mod_noop(n, 1, 65535);
            lemma_small_mod(1, 65535);
            if n % 65535 == 65534 {
                lemma_mod_self_0(65535);
            } else {
                lemma_small_mod((n % 65535 + 1) as nat, 65535);
            }
            assert(1 <= spec_seq_of(self.n_alloc@) <= 65535);
        }
        if seq == 65535 {
            self.next_seq = 1;
        } else {
            self.next_seq = seq + 1;
        }
        proof {
            self.n_alloc@ = self.n_alloc@ + 1;
            let n = old(self).n_alloc@ as int;
            assert(0 <= n % 65535 < 65535);
            assert(self.next_sequence() == spec_seq_of(self.n_alloc@));
            assert forall|s: u16| self.pending().dom().contains(s) implies #[trigger] self.alloc_of(
                s,
            ) < self.allocated() && s == spec_seq_of(self.alloc_of(s)) by {
                assert(old(self).pending().dom().contains(s));
                assert(old(self).alloc_of(s) < old(self).allocated());
            }
        }
        seq
    }

    /// Allocates the sequence number of a request that expects no reply: the
    /// counter moves, nothing is registered.
    pub fn allocate_sequence(&mut self) -> (seq: u16)
        requires
            old(self).wf(),
        ensures
            final(self).wf(),
            seq == old(self).next_sequence(),
            1 <= seq <= 65535,
            final(self).pending() == old(self).pending(),
            final(self).allocated() == old(self).allocated() + 1,
            final(self).spec_policy() == old(self).spec_policy(),
    {
        self.advance()
    }

    /// Allocates the next sequence number and registers the waiter for its
    /// reply, before any byte of the request may go out.
    pub fn register_request(&mut self, kind: ReplyKind) -> (seq: u16)
        requires
            old(self).wf(),
            !old(self).pending().dom().contains(old(self).next_sequence()),
        ensures
            final(self).wf(),
            seq == old(self).next_sequence(),
            1 <= seq <= 65535,
            final(self).pending() == old(self).pending().insert(seq, kind),
            final(self).allocated() == old(self).allocated() + 1,
            final(self).spec_policy() == old(self).spec_policy(),
    {
        let ghost at = self.n_alloc@;
        let seq = self.advance();
        self.pending.insert(seq, PendingEntry { kind, alloc: Ghost(at) });
        proof {
            assert(final(self).pending() =~= old(self).pending().insert(seq, kind));
            assert forall|s: u16| self.pending().dom().contains(s) implies #[trigger] self.alloc_of(
                s,
            ) < self.allocated() && s == spec_seq_of(self.alloc_of(s)) by {
                if s != seq {
                    assert(old(self).pending().dom().contains(s));
                    assert(old(self).alloc_of(s) < old(self).allocated());
                }
            }
        }
        seq
    }

    /// Dispatches one frame. An error or reply that answers a pending entry
    /// resolves exactly that entry and removes it; a reply with no entry, or
    /// an error with no entry under the fatal policy, is a
    /// desynchronization fault; an error with no entry under the
    /// out-of-band policy is surfaced, never dropped; an event passes
    /// through and never touches the table.
    pub fn handle_frame(&mut self, frame: Vec<u8>) -> (res: Result<
        DispatchOutcome,
        DispatchError,
    >)
        requires
            old(self).wf(),
            frame@.len() >= FRAME_LEN,
            frame@[0] != 1 ==> frame@.len() == FRAME_LEN,
        ensures
            final(self).wf(),
            final(self).next_sequence() == old(self).next_sequence(),
            final(self).allocated() == old(self).allocated(),
            final(self).spec_policy() == old(self).spec_policy(),
            ({
                let b = frame@;
                let seq = be16(b.subrange(2, 4));
                if b[0] == 0 {
                    let e = error::spec_error_of(b[1], be32(b.subrange(4, 8)));
                    if old(self).pending().dom().contains(seq) {
                        res == Ok::<DispatchOutcome, DispatchError>(
                            DispatchOutcome::ErrorResolved(seq, e),
                        ) && final(self).pending() == old(self).pending().remove(seq)
                    } else if old(self).spec_policy() == UnmatchedErrorPolicy::OutOfBand {
                        res == Ok::<DispatchOutcome, DispatchError>(
                            DispatchOutcome::OutOfBandError(seq, e),
                        ) && final(self).pending() == old(self).pending()
                    } else {
                        res == Err::<DispatchOutcome, DispatchError>(DispatchError::Desync(seq))
                            && final(self).pending() == old(self).pending()
                    }
                } else if b[0] == 1 {
                    if old(self).pending().dom().contains(seq) {
                        res matches Ok(DispatchOutcome::ReplyResolved(s, kind, payload)) && s == seq
                            && kind == old(self).pending()[seq] && payload@ == b
                            && final(self).pending() == old(self).pending().remove(seq)
                    } else {
                        res == Err::<DispatchOutcome, DispatchError>(DispatchError::Desync(seq))
                            && final(self).pending() == old(self).pending()
                    }
                } else {
                    res matches Ok(DispatchOutcome::Event(ev)) && event_decodes(b, ev)
                        && final(self).pending() == old(self).pending()
                }
            }),
    {
        let ghost b = frame@;
        match classify_frame(frame) {
            Message::Error(seq, e) => {
                match self.pending.remove(&seq) {
                    Some(_) => {
                        proof {
                            assert(self.pending() =~= old(self).pending().remove(seq));
                            lemma_removed_entry_wf(*old(self), *self, seq);
                        }
                        Ok(DispatchOutcome::ErrorResolved(seq, e))
                    },
                    None => {
                        proof {
                            assert(self.pending@ =~= old(self).pending@);
                            assert(self.pending() =~= old(self).pending());
                            assert(!old(self).pending().dom().contains(seq));
                            lemma_removed_entry_wf(*old(self), *self, seq);
                        }
                        if self.policy == UnmatchedErrorPolicy::OutOfBand {
                            Ok(DispatchOutcome::OutOfBandError(seq, e))
                        } else {
                            Err(DispatchError::Desync(seq))
                        }
                    },
                }
            },
            Message::Reply(seq, payload) => {
                match self.pending.remove(&seq) {
                    Some(entry) => {
                        proof {
                            assert(self.pending() =~= old(self).pending().remove(seq));
                            assert(entry.kind == old(self).pending()[seq]);
                            lemma_removed_entry_wf(*old(self), *self, seq);
                        }
                        Ok(DispatchOutcome::ReplyResolved(seq, entry.kind, payload))
                    },
                    None => {
                        proof {
                            assert(self.pending@ =~= old(self).pending@);
                            assert(self.pending() =~= old(self).pending());
                            assert(!old(self).pending().dom().contains(seq));
                            lemma_removed_entry_wf(*old(self), *self, seq);
                        }
                        Err(DispatchError::Desync(seq))
                    },
                }
            },
            Message::Event(ev) => Ok(DispatchOutcome::Event(ev)),
        }
    }
}

/// Removing a resolved entry keeps the connection well formed.
proof fn lemma_removed_entry_wf(a: Connection, b: Connection, seq: u16)
    requires
        a.wf(),
        b.pending@ == a.pending@.remove(seq),
        b.n_alloc@ == a.n_alloc@,
        b.next_seq == a.next_seq,
    ensures
        b.wf(),
{
    assert forall|s: u16| b.pending().dom().contains(s) implies #[trigger] b.alloc_of(s)
        < b.allocated() && s == spec_seq_of(b.alloc_of(s)) by {
        assert(a.pending().dom().contains(s));
        assert(a.alloc_of(s) < a.allocated());
        assert(b.pending@[s] == a.pending@[s]);
    }
}

/// Whenever every pending entry is younger than one full wrap of the
/// counter — fewer than 65535 requests sent since the oldest in-flight
/// request — the number the counter hands out next is held by no pending
/// entry: the counter wraps from 65535 back to 1 without reusing a number
/// still in flight.
pub proof fn lemma_wrap_reuses_no_pending_number(c: Connection)
    requires
        c.wf(),
        forall|s: u16|
            c.pending().dom().contains(s) ==> c.allocated() - #[trigger] c.alloc_of(s) < 65535,
    ensures
        !c.pending().dom().contains(c.next_sequence()),
{
    if c.pending().dom().contains(c.next_sequence()) {
        let a = c.alloc_of(c.next_sequence());
        let n = c.allocated();
        assert(spec_seq_of(a) == spec_seq_of(n));
        assert(a % 65535 == n % 65535);
        lemma_sub_mod_noop(n as int, a as int, 65535);
        let d = n - a;
        assert(d % 65535 == 0);
        assert(0 < d < 65535);
        lemma_small_mod(d as nat, 65535);
        assert(false);
    }
}

/// The pending table after replies for the given sequence numbers resolved,
/// in stream order.
pub open spec fn after_resolving(p: Map<u16, ReplyKind>, seqs: Seq<u16>) -> Map<u16, ReplyKind>
    decreases seqs.len(),
{
    if seqs.len() == 0 {
        p
    } else {
        after_resolving(p.remove(seqs[0]), seqs.skip(1))
    }
}

/// An entry that none of the resolved numbers names stays in the table.
pub proof fn lemma_after_resolving_keeps(p: Map<u16, ReplyKind>, seqs: Seq<u16>, x: u16)
    requires
        p.dom().contains(x),
        !seqs.contains(x),
    ensures
        after_resolving(p, seqs).dom().contains(x),
        after_resolving(p, seqs)[x] == p[x],
    decreases seqs.len(),
{
    if seqs.len() > 0 {
        assert(seqs[0] != x);
        assert(!seqs.skip(1).contains(x)) by {
            if seqs.skip(1).contains(x) {
                let j = choose|j: int| 0 <= j < seqs.skip(1).len() && seqs.skip(1)[j] == x;
                assert(seqs[j + 1] == x);
            }
        }
        lemma_after_resolving_keeps(p.remove(seqs[0]), seqs.skip(1), x);
    }
}

/// With requests pending under distinct sequence numbers and one reply per
/// request arriving in submission order, each waiter is still registered
/// when its own reply arrives: every reply resolves exactly the waiter of
/// its own sequence number (the dispatcher's contract), and none resolves
/// another's.
pub proof fn lemma_each_reply_finds_its_waiter(p: Map<u16, ReplyKind>, seqs: Seq<u16>, i: int)
    requires
        forall|a: int, b: int| 0 <= a < b < seqs.len() ==> seqs[a] != seqs[b],
        forall|j: int| 0 <= j < seqs.len() ==> p.dom().contains(#[trigger] seqs[j]),
        0 <= i < seqs.len(),
    ensures
        after_resolving(p, seqs.take(i)).dom().contains(seqs[i]),
        after_resolving(p, seqs.take(i))[seqs[i]] == p[seqs[i]],
{
    assert(!seqs.take(i).contains(seqs[i])) by {
        if seqs.take(i).contains(seqs[i]) {
            let j = choose|j: int| 0 <= j < i && seqs.take(i)[j] == seqs[i];
            assert(seqs[j] == seqs[i]);
        }
    }
    lemma_after_resolving_keeps(p, seqs.take(i), seqs[i]);
}

} // verus!
