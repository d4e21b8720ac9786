//! Reply payload decoding. Each reply shape belongs to one request kind; the
//! dispatcher hands the raw frame to the decoder the pending entry names.

use crate::bytes::{be16, be32, read_u16, read_u32, skip, CodecError, Reader};
use crate::proto;
use vstd::prelude::*;

verus! {

broadcast use vstd::seq_lib::lemma_seq_skip_of_skip;

/// The decoded answer to a tree query: the root, the parent if there is one,
/// and the children.
#[derive(Debug, PartialEq)]
pub struct QueryTree {
    pub sequence_number: u16,
    pub root: proto::Window,
    pub parent: Option<proto::Window>,
    pub children: Vec<proto::Window>,
}

impl QueryTree {
    /// Decodes a full tree-query reply frame, leading tag byte included:
    /// sequence number, root, parent (0 meaning none), child count, then
    /// that many window ids.
    pub fn read(r: &mut Reader) -> (res: Result<QueryTree, CodecError>)
        requires
            old(r).wf(),
        ensures
            final(r).wf(),
            final(r).data() == old(r).data(),
            ({
                let b = old(r).remaining();
                match res {
                    Ok(q) => {
                        let n = be16(b.subrange(16, 18)) as int;
                        &&& b.len() >= 32 + 4 * n
                        &&& q.sequence_number == be16(b.subrange(2, 4))
                        &&& q.root == be32(b.subrange(8, 12))
                        &&& q.parent == (if be32(b.subrange(12, 16)) == 0 {
                            Option::<u32>::None
                        } else {
                            Option::<u32>::Some(be32(b.subrange(12, 16)))
                        })
                        &&& q.children@.len() == n
                        &&& (forall|i: int|
                            0 <= i < n ==> q.children@[i] == be32(
                                #[trigger] b.subrange(32 + 4 * i, 36 + 4 * i),
                            ))
                        &&& final(r).position() == old(r).position() + 32 + 4 * n
                    },
                    Err(e) => e == CodecError::UnexpectedEnd && (b.len() < 32 || b.len() < 32 + 4
                        * be16(b.subrange(16, 18))),
                }
            }),
    {
        let ghost b = old(r).remaining();
        if r.left() < 32 {
            return Err(CodecError::UnexpectedEnd);
        }
        skip(r, 2).unwrap();
        let sequence_number = read_u16(r).unwrap();
        let _reply_length = read_u32(r).unwrap();
        let root = read_u32(r).unwrap();
        let parent_raw = read_u32(r).unwrap();
        let child_count = read_u16(r).unwrap();
        skip(r, 14).unwrap();
        proof {
            assert(b.skip(2).take(2) =~= b.subrange(2, 4));
            assert(b.skip(8).take(4) =~= b.subrange(8, 12));
            assert(b.skip(12).take(4) =~= b.subrange(12, 16));
            assert(b.skip(16).take(2) =~= b.subrange(16, 18));
        }
        let parent = if parent_raw == 0 {
            None
        } else {
            Some(parent_raw)
        };
        let mut children: Vec<proto::Window> = Vec::new();
        let mut i: u16 = 0;
        if r.left() < 4 * (child_count as usize) {
            return Err(CodecError::UnexpectedEnd);
        }
        while i < child_count
            invariant
                old(r).wf(),
                r.wf(),
                r.data() == old(r).data(),
                b == old(r).remaining(),
                i <= child_count,
                children@.len() == i,
                r.position() == old(r).position() + 32 + 4 * i,
                b.len() >= 32 + 4 * (child_count as int),
                forall|j: int|
                    0 <= j < i ==> children@[j] == be32(#[trigger] b.subrange(32 + 4 * j, 36 + 4 * j)),
            decreases child_count - i,
        {
            let ghost rem_i = r.remaining();
            let w = read_u32(r).unwrap();
            proof {
                assert(rem_i =~= b.skip(32 + 4 * (i as int)));
                assert(rem_i.take(4) =~= b.subrange(32 + 4 * (i as int), 36 + 4 * (i as int)));
            }
            children.push(w);
            i = i + 1;
        }
        Ok(QueryTree { sequence_number, root, parent, children })
    }
}

} // verus!
