//! Request encoding: a fixed header (opcode, opcode data, length in 4-byte
//! words), a fixed body, and for attribute-carrying requests an optional value
//! list gated by a 32-bit mask, its entries in ascending bit-index order no
//! matter the order the caller configured them in.

use crate::bytes::{be16_bytes, be32_bytes, write_u16, write_u32, write_u8};
use crate::proto;
use crate::proto::{Class, Visual};
use vstd::prelude::*;

verus! {

/// Number of optional attributes a value mask can gate.
pub const VALUE_SLOTS: u32 = 15;

/// Whether bit `i` of the mask is set.
pub open spec fn bit_set(mask: u32, i: u32) -> bool
    recommends
        i < 32,
{
    mask & (1u32 << i) != 0
}

/// The serialized value list: for each set mask bit, in ascending bit order,
/// the four big-endian bytes of the slot configured for that bit.
pub open spec fn values_enc(mask: u32, slots: Seq<u32>, i: u32) -> Seq<u8>
    recommends
        slots.len() == VALUE_SLOTS,
    decreases VALUE_SLOTS - i when i <= VALUE_SLOTS
{
    if i >= VALUE_SLOTS {
        Seq::empty()
    } else {
        (if bit_set(mask, i) {
            be32_bytes(slots[i as int])
        } else {
            Seq::empty()
        }) + values_enc(mask, slots, (i + 1) as u32)
    }
}

/// How many of the mask bits `i..15` are set.
pub open spec fn count_set(mask: u32, i: u32) -> nat
    decreases VALUE_SLOTS - i when i <= VALUE_SLOTS
{
    if i >= VALUE_SLOTS {
        0
    } else {
        (if bit_set(mask, i) {
            1nat
        } else {
            0nat
        }) + count_set(mask, (i + 1) as u32)
    }
}

/// The ghost value of a value list: the mask and all 15 slots, configured or
/// not.
pub ghost struct ValueListView {
    pub mask: u32,
    pub slots: Seq<u32>,
}

/// The deferred value list of one request: an attribute set in any order
/// lands in the slot of its mask bit, and serialization walks the slots in
/// ascending bit order.
#[derive(Debug)]
pub struct ValueList {
    mask: u32,
    slots: Vec<u32>,
}

impl View for ValueList {
    type V = ValueListView;

    closed spec fn view(&self) -> ValueListView {
        ValueListView { mask: self.mask, slots: self.slots@ }
    }
}

impl ValueList {
    pub open spec fn wf(&self) -> bool {
        &&& self@.slots.len() == VALUE_SLOTS
        &&& forall|i: u32| VALUE_SLOTS <= i < 32 ==> !bit_set(self@.mask, i)
    }

    /// An empty list: no bit set, no value contributed.
    pub fn new() -> (vl: ValueList)
        ensures
            vl.wf(),
            vl@.mask == 0,
            vl@.slots == Seq::new(VALUE_SLOTS as nat, |i: int| 0u32),
    {
        let mut slots: Vec<u32> = Vec::new();
        let mut i: u32 = 0;
        while i < VALUE_SLOTS
            invariant
                i <= VALUE_SLOTS,
                slots@ == Seq::new(i as nat, |j: int| 0u32),
            decreases VALUE_SLOTS - i,
        {
            slots.push(0);
            i = i + 1;
            proof {
                assert(slots@ =~= Seq::new(i as nat, |j: int| 0u32));
            }
        }
        proof {
            assert(forall|i: u32| i < 32 ==> (0u32 & (1u32 << i) == 0)) by (bit_vector);
        }
        ValueList { mask: 0, slots }
    }

    /// Configures the attribute of mask bit `bit`; a later set of the same
    /// bit replaces the value.
    pub fn set(&mut self, bit: u8, value: u32)
        requires
            old(self).wf(),
            bit < VALUE_SLOTS,
        ensures
            final(self).wf(),
            final(self)@.mask == old(self)@.mask | (1u32 << bit),
            final(self)@.slots == old(self)@.slots.update(bit as int, value),
            bit_set(final(self)@.mask, bit as u32),
            forall|i: u32|
                i < 32 && i != bit ==> bit_set(final(self)@.mask, i) == bit_set(
                    old(self)@.mask,
                    i,
                ),
    {
        let ghost m = self@.mask;
        self.mask = self.mask | (1u32 << (bit as u32));
        self.slots.set(bit as usize, value);
        proof {
            let b = bit as u32;
            assert(b < 15);
            assert(b < 32 ==> (m | (1u32 << b)) & (1u32 << b) != 0) by (bit_vector);
            assert forall|i: u32| i < 32 && i != b implies bit_set(self@.mask, i) == bit_set(
                m,
                i,
            ) by {
                assert(b < 32 && i < 32 && i != b ==> ((m | (1u32 << b)) & (1u32 << i) != 0) == (m
                    & (1u32 << i) != 0)) by (bit_vector);
            }
            assert forall|i: u32| VALUE_SLOTS <= i < 32 implies !bit_set(self@.mask, i) by {
                assert(!bit_set(m, i));
            }
        }
    }

    /// How many values the list will contribute.
    pub fn len(&self) -> (n: u32)
        requires
            self.wf(),
        ensures
            n == count_set(self@.mask, 0),
            n <= VALUE_SLOTS,
    {
        let mut n: u32 = 0;
        let mut i: u32 = 0;
        while i < VALUE_SLOTS
            invariant
                self.wf(),
                i <= VALUE_SLOTS,
                n <= i,
                count_set(self@.mask, 0) == n + count_set(self@.mask, i),
            decreases VALUE_SLOTS - i,
        {
            proof {
                lemma_count_set_prefix(self@.mask, i);
            }
            if self.mask & (1u32 << i) != 0 {
                n = n + 1;
            }
            i = i + 1;
        }
        n
    }

    /// Appends the serialized values, set bits only, ascending.
    pub fn write(&self, w: &mut Vec<u8>)
        requires
            self.wf(),
        ensures
            final(w)@ == old(w)@ + values_enc(self@.mask, self@.slots, 0),
    {
        let mut i: u32 = 0;
        while i < VALUE_SLOTS
            invariant
                self.wf(),
                i <= VALUE_SLOTS,
                w@ + values_enc(self@.mask, self@.slots, i) == old(w)@ + values_enc(
                    self@.mask,
                    self@.slots,
                    0,
                ),
            decreases VALUE_SLOTS - i,
        {
            proof {
                lemma_count_set_prefix(self@.mask, i);
            }
            if self.mask & (1u32 << i) != 0 {
                let v = self.slots[i as usize];
                let ghost before = w@;
                write_u32(w, v);
                proof {
                    assert(before + values_enc(self@.mask, self@.slots, i) =~= (before
                        + be32_bytes(v)) + values_enc(self@.mask, self@.slots, (i + 1) as u32));
                }
            } else {
                proof {
                    assert(w@ + values_enc(self@.mask, self@.slots, i) =~= w@ + values_enc(
                        self@.mask,
                        self@.slots,
                        (i + 1) as u32,
                    ));
                }
            }
            i = i + 1;
        }
        proof {
            assert(w@ + values_enc(self@.mask, self@.slots, VALUE_SLOTS) =~= w@);
        }
    }
}

/// Helper for loop steps: unfolds one step of `count_set`.
proof fn lemma_count_set_prefix(mask: u32, i: u32)
    requires
        i < VALUE_SLOTS,
    ensures
        count_set(mask, i) == (if bit_set(mask, i) {
            1nat
        } else {
            0nat
        }) + count_set(mask, (i + 1) as u32),
        count_set(mask, (i + 1) as u32) <= VALUE_SLOTS - i - 1,
    decreases VALUE_SLOTS - i,
{
    if i + 1 < VALUE_SLOTS {
        lemma_count_set_prefix(mask, (i + 1) as u32);
    }
}

/// Configuring two different attributes commutes: the mask and the slots, and
/// with them the serialized value list, do not depend on the order of the two
/// configuration calls.
pub proof fn lemma_set_order_irrelevant(mask: u32, slots: Seq<u32>, i: u32, j: u32, v: u32, w: u32)
    requires
        slots.len() == VALUE_SLOTS,
        i < VALUE_SLOTS,
        j < VALUE_SLOTS,
        i != j,
    ensures
        (mask | (1u32 << i)) | (1u32 << j) == (mask | (1u32 << j)) | (1u32 << i),
        slots.update(i as int, v).update(j as int, w) == slots.update(j as int, w).update(
            i as int,
            v,
        ),
        values_enc((mask | (1u32 << i)) | (1u32 << j), slots.update(i as int, v).update(
            j as int,
            w,
        ), 0) == values_enc((mask | (1u32 << j)) | (1u32 << i), slots.update(j as int, w).update(
            i as int,
            v,
        ), 0),
{
    assert((mask | (1u32 << i)) | (1u32 << j) == (mask | (1u32 << j)) | (1u32 << i))
        by (bit_vector);
    assert(slots.update(i as int, v).update(j as int, w) =~= slots.update(j as int, w).update(
        i as int,
        v,
    ));
}

/// Whether two window-creation requests agree on everything besides the
/// value list.
pub open spec fn unchanged_but_values(a: CreateWindow, b: CreateWindow) -> bool {
    &&& a.depth == b.depth
    &&& a.window == b.window
    &&& a.parent == b.parent
    &&& a.x == b.x
    &&& a.y == b.y
    &&& a.width == b.width
    &&& a.height == b.height
    &&& a.border_width == b.border_width
    &&& a.class == b.class
    &&& a.visual == b.visual
}

/// Creates a window: fixed geometry fields, then the optional attributes.
#[derive(Debug)]
pub struct CreateWindow {
    pub depth: u8,
    pub window: u32,
    pub parent: u32,
    pub x: u16,
    pub y: u16,
    pub width: u16,
    pub height: u16,
    pub border_width: u16,
    pub class: Class,
    pub visual: Visual,
    pub values: ValueList,
}

impl CreateWindow {
    pub open spec fn wf(&self) -> bool {
        self.values.wf()
    }

    /// The full request bytes: header with the length in 4-byte words (8 for
    /// the fixed part plus one per configured value), body, mask, value list.
    pub open spec fn spec_enc(self) -> Seq<u8> {
        seq![proto::OPCODE_CREATE_WINDOW, self.depth] + be16_bytes(
            (8 + count_set(self.values@.mask, 0)) as u16,
        ) + be32_bytes(self.window) + be32_bytes(self.parent) + be16_bytes(self.x) + be16_bytes(
            self.y,
        ) + be16_bytes(self.width) + be16_bytes(self.height) + be16_bytes(self.border_width)
            + be16_bytes(self.class.spec_code()) + be32_bytes(self.visual.spec_code())
            + be32_bytes(self.values@.mask) + values_enc(self.values@.mask, self.values@.slots, 0)
    }

    pub fn new(
        depth: u8,
        window: u32,
        parent: u32,
        x: u16,
        y: u16,
        width: u16,
        height: u16,
        border_width: u16,
        class: Class,
        visual: Visual,
    ) -> (req: CreateWindow)
        ensures
            req.wf(),
            req.depth == depth,
            req.window == window,
            req.parent == parent,
            req.x == x,
            req.y == y,
            req.width == width,
            req.height == height,
            req.border_width == border_width,
            req.class == class,
            req.visual == visual,
            req.values@.mask == 0,
    {
        CreateWindow {
            depth,
            window,
            parent,
            x,
            y,
            width,
            height,
            border_width,
            class,
            visual,
            values: ValueList::new(),
        }
    }

    /// Selects which events the window reports.
    pub fn event_mask(&mut self, value: u32)
        requires
            old(self).wf(),
        ensures
            final(self).wf(),
            final(self).values@.mask == old(self).values@.mask | proto::VALUE_MASK_EVENT_MASK,
            final(self).values@.slots == old(self).values@.slots.update(
                proto::VALUE_BIT_EVENT_MASK as int,
                value,
            ),
            unchanged_but_values(*old(self), *final(self)),
    {
        self.values.set(proto::VALUE_BIT_EVENT_MASK, value);
        proof {
            assert(1u32 << 11u32 == 0x800u32) by (bit_vector);
        }
    }

    /// Sets the window's background to a solid pixel value.
    pub fn background_pixel(&mut self, value: u32)
        requires
            old(self).wf(),
        ensures
            final(self).wf(),
            final(self).values@.mask == old(self).values@.mask
                | proto::VALUE_MASK_BACKGROUND_PIXEL,
            final(self).values@.slots == old(self).values@.slots.update(
                proto::VALUE_BIT_BACKGROUND_PIXEL as int,
                value,
            ),
            unchanged_but_values(*old(self), *final(self)),
    {
        self.values.set(proto::VALUE_BIT_BACKGROUND_PIXEL, value);
        proof {
            assert(1u32 << 1u32 == 0x2u32) by (bit_vector);
        }
    }

    /// Appends the serialized request.
    pub fn write(&self, w: &mut Vec<u8>)
        requires
            self.wf(),
        ensures
            final(w)@ == old(w)@ + self.spec_enc(),
    {
        write_u8(w, proto::OPCODE_CREATE_WINDOW);
        write_u8(w, self.depth);
        let n = self.values.len();
        write_u16(w, 8 + (n as u16));
        write_u32(w, self.window);
        write_u32(w, self.parent);
        write_u16(w, self.x);
        write_u16(w, self.y);
        write_u16(w, self.width);
        write_u16(w, self.height);
        write_u16(w, self.border_width);
        self.class.write(w);
        self.visual.write(w);
        write_u32(w, self.values.mask);
        self.values.write(w);
        proof {
            assert(final(w)@ =~= old(w)@ + self.spec_enc());
        }
    }
}

/// Changes the optional attributes of an existing window.
#[derive(Debug)]
pub struct ChangeWindowAttributes {
    pub window: u32,
    pub values: ValueList,
}

impl ChangeWindowAttributes {
    pub open spec fn wf(&self) -> bool {
        self.values.wf()
    }

    /// The full request bytes: header with the length in 4-byte words (3 for
    /// the fixed part plus one per configured value), window, mask, value
    /// list.
    pub open spec fn spec_enc(self) -> Seq<u8> {
        seq![proto::OPCODE_CHANGE_WINDOW_ATTRIBUTES, 0u8] + be16_bytes(
            (3 + count_set(self.values@.mask, 0)) as u16,
        ) + be32_bytes(self.window) + be32_bytes(self.values@.mask) + values_enc(
            self.values@.mask,
            self.values@.slots,
            0,
        )
    }

    pub fn new(window: u32) -> (req: ChangeWindowAttributes)
        ensures
            req.wf(),
            req.window == window,
            req.values@.mask == 0,
    {
        ChangeWindowAttributes { window, values: ValueList::new() }
    }

    /// Selects which events the window reports.
    pub fn event_mask(&mut self, value: u32)
        requires
            old(self).wf(),
        ensures
            final(self).wf(),
            final(self).window == old(self).window,
            final(self).values@.mask == old(self).values@.mask | proto::VALUE_MASK_EVENT_MASK,
            final(self).values@.slots == old(self).values@.slots.update(
                proto::VALUE_BIT_EVENT_MASK as int,
                value,
            ),
    {
        self.values.set(proto::VALUE_BIT_EVENT_MASK, value);
        proof {
            assert(1u32 << 11u32 == 0x800u32) by (bit_vector);
        }
    }

    /// Sets the window's background to a solid pixel value.
    pub fn background_pixel(&mut self, value: u32)
        requires
            old(self).wf(),
        ensures
            final(self).wf(),
            final(self).window == old(self).window,
            final(self).values@.mask == old(self).values@.mask
                | proto::VALUE_MASK_BACKGROUND_PIXEL,
            final(self).values@.slots == old(self).values@.slots.update(
                proto::VALUE_BIT_BACKGROUND_PIXEL as int,
                value,
            ),
    {
        self.values.set(proto::VALUE_BIT_BACKGROUND_PIXEL, value);
        proof {
            assert(1u32 << 1u32 == 0x2u32) by (bit_vector);
        }
    }

    /// Appends the serialized request.
    pub fn write(&self, w: &mut Vec<u8>)
        requires
            self.wf(),
        ensures
            final(w)@ == old(w)@ + self.spec_enc(),
    {
        write_u8(w, proto::OPCODE_CHANGE_WINDOW_ATTRIBUTES);
        write_u8(w, 0);
        let n = self.values.len();
        write_u16(w, 3 + (n as u16));
        write_u32(w, self.window);
        write_u32(w, self.values.mask);
        self.values.write(w);
        proof {
            assert(final(w)@ =~= old(w)@ + self.spec_enc());
        }
    }
}

/// Asks for the attributes of a window; the server answers with a reply.
#[derive(Debug, Clone, Copy, PartialEq, Eq, Structural)]
pub struct GetWindowAttributes {
    pub window: u32,
}

impl GetWindowAttributes {
    /// The full request bytes: header of length 2 words, then the window id.
    pub open spec fn spec_enc(self) -> Seq<u8> {
        seq![proto::OPCODE_GET_WINDOW_ATTRIBUTES, 0u8] + be16_bytes(2) + be32_bytes(self.window)
    }

    pub fn new(window: u32) -> (req: GetWindowAttributes)
        ensures
            req.window == window,
    {
        GetWindowAttributes { window }
    }

    /// Appends the serialized request.
    pub fn write(&self, w: &mut Vec<u8>)
        ensures
            final(w)@ == old(w)@ + self.spec_enc(),
    {
        write_u8(w, proto::OPCODE_GET_WINDOW_ATTRIBUTES);
        write_u8(w, 0);
        write_u16(w, 2);
        write_u32(w, self.window);
        proof {
            assert(final(w)@ =~= old(w)@ + self.spec_enc());
        }
    }
}

/// Makes a window visible.
#[derive(Debug, Clone, Copy, PartialEq, Eq, Structural)]
pub struct MapWindow {
    pub window: u32,
}

impl MapWindow {
    /// The full request bytes: header of length 2 words, then the window id.
    pub open spec fn spec_enc(self) -> Seq<u8> {
        seq![proto::OPCODE_MAP_WINDOW, 0u8] + be16_bytes(2) + be32_bytes(self.window)
    }

    pub fn new(window: u32) -> (req: MapWindow)
        ensures
            req.window == window,
    {
        MapWindow { window }
    }

    /// Appends the serialized request.
    pub fn write(&self, w: &mut Vec<u8>)
        ensures
            final(w)@ == old(w)@ + self.spec_enc(),
    {
        write_u8(w, proto::OPCODE_MAP_WINDOW);
        write_u8(w, 0);
        write_u16(w, 2);
        write_u32(w, self.window);
        proof {
            assert(final(w)@ =~= old(w)@ + self.spec_enc());
        }
    }
}

/// Asks for a window's root, parent and children; the server answers with a
/// reply.
#[derive(Debug, Clone, Copy, PartialEq, Eq, Structural)]
pub struct QueryTree {
    pub window: u32,
}

/// The decoded answer to a tree query.
#[derive(Debug, PartialEq)]
pub struct QueryTreeReply {
    pub root: proto::Window,
    pub parent: Option<proto::Window>,
    pub children: Vec<proto::Window>,
}

impl QueryTree {
    /// The full request bytes: header of length 2 words, then the window id.
    pub open spec fn spec_enc(self) -> Seq<u8> {
        seq![proto::OPCODE_QUERY_TREE, 0u8] + be16_bytes(2) + be32_bytes(self.window)
    }

    pub fn new(window: u32) -> (req: QueryTree)
        ensures
            req.window == window,
    {
        QueryTree { window }
    }

    /// Appends the serialized request.
    pub fn write(&self, w: &mut Vec<u8>)
        ensures
            final(w)@ == old(w)@ + self.spec_enc(),
    {
        write_u8(w, proto::OPCODE_QUERY_TREE);
        write_u8(w, 0);
        write_u16(w, 2);
        write_u32(w, self.window);
        proof {
            assert(final(w)@ =~= old(w)@ + self.spec_enc());
        }
    }
}

} // verus!
