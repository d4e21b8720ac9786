//! The one-time handshake: the client prologue, the status branch, and the
//! deeply nested capability record the server answers with — header, vendor
//! string, pixmap formats, then screens holding depths holding visual types,
//! every nested count consumed exactly.
//!
//! Each record's contract is stated against a `..._matches` predicate: the
//! predicate says that a byte sequence begins with a representation of the
//! decoded value (reserved bytes unconstrained), and `..._enc_len` gives that
//! representation's exact length. Decoding succeeds exactly on inputs some
//! value matches, and two values matching the same bytes are equal.

use crate::bytes::{
    be16, be16_bytes, be32, pad, read_string, read_u16, read_u32, read_u8, skip, spec_pad,
    write_u16, write_u8, CodecError, Reader,
};
use vstd::prelude::*;
use vstd::utf8::{decode_utf8, encode_utf8, valid_utf8};

verus! {

broadcast use vstd::seq_lib::lemma_seq_skip_of_skip;

/// Why the handshake gave no usable `Setup`: the server refused it, demanded
/// credentials, the buffer ended early (a transport fault: the stream has no
/// resynchronization point), or a byte had no legal meaning — an out-of-range
/// code byte, or text that is not valid UTF-8.
#[derive(Debug, PartialEq)]
pub enum Error {
    Failed(String),
    AuthenticationRequired,
    Transport,
    Protocol,
}

/// The handshake status byte.
#[derive(Debug, Clone, Copy, PartialEq, Eq, Structural)]
pub enum Status {
    Failed,
    Success,
    Authenticate,
}

impl Status {
    /// Decodes the status byte; values above 2 have no meaning.
    pub fn try_from(value: u8) -> (res: Option<Status>)
        ensures
            match res {
                Some(st) => (value == 0 ==> st == Status::Failed) && (value == 1 ==> st
                    == Status::Success) && (value == 2 ==> st == Status::Authenticate) && value
                    <= 2,
                None => value > 2,
            },
    {
        match value {
            0 => Some(Status::Failed),
            1 => Some(Status::Success),
            2 => Some(Status::Authenticate),
            _ => None,
        }
    }
}

/// One supported off-screen image layout.
#[derive(Debug, Clone, Copy, PartialEq, Eq, Structural)]
pub struct PixmapFormat {
    pub depth: u8,
    pub bits_per_pixel: u8,
    pub scanline_pad: u8,
}

/// Length of one pixmap-format record.
pub const PIXMAP_FORMAT_ENC_LEN: usize = 8;

/// Whether `s` begins with a representation of `f`: depth, bits per pixel and
/// scanline pad bytes, then five reserved bytes.
pub open spec fn pixmap_format_matches(f: PixmapFormat, s: Seq<u8>) -> bool {
    &&& s.len() >= PIXMAP_FORMAT_ENC_LEN
    &&& f.depth == s[0]
    &&& f.bits_per_pixel == s[1]
    &&& f.scanline_pad == s[2]
}

impl PixmapFormat {
    /// Decodes one 8-byte pixmap-format record.
    pub fn read(r: &mut Reader) -> (res: Result<PixmapFormat, Error>)
        requires
            old(r).wf(),
        ensures
            final(r).wf(),
            final(r).data() == old(r).data(),
            match res {
                Ok(f) => pixmap_format_matches(f, old(r).remaining()) && final(r).position()
                    == old(r).position() + PIXMAP_FORMAT_ENC_LEN,
                Err(e) => e == Error::Transport && old(r).remaining().len()
                    < PIXMAP_FORMAT_ENC_LEN && *final(r) == *old(r),
            },
    {
        if r.left() < PIXMAP_FORMAT_ENC_LEN {
            return Err(Error::Transport);
        }
        let depth = read_u8(r).unwrap();
        let bits_per_pixel = read_u8(r).unwrap();
        let scanline_pad = read_u8(r).unwrap();
        skip(r, 5).unwrap();
        Ok(PixmapFormat { depth, bits_per_pixel, scanline_pad })
    }
}



/// When a screen keeps obscured window contents.
#[derive(Debug, Clone, Copy, PartialEq, Eq, Structural)]
pub enum BackingStores {
    Never,
    WhenMapped,
    Always,
}

impl BackingStores {
    /// The byte code of the policy on the wire.
    pub open spec fn spec_code(self) -> u8 {
        match self {
            BackingStores::Never => 0,
            BackingStores::WhenMapped => 1,
            BackingStores::Always => 2,
        }
    }

    /// Decodes a byte code; values above 2 name no policy.
    pub fn try_from(value: u8) -> (res: Option<BackingStores>)
        ensures
            match res {
                Some(bs) => value <= 2 && bs.spec_code() == value,
                None => value > 2,
            },
    {
        match value {
            0 => Some(BackingStores::Never),
            1 => Some(BackingStores::WhenMapped),
            2 => Some(BackingStores::Always),
            _ => None,
        }
    }
}

/// How a visual type maps pixel values to colors.
#[derive(Debug, Clone, Copy, PartialEq, Eq, Structural)]
pub enum VisualTypeClass {
    StaticGray,
    GrayScale,
    StaticColor,
    PseudoColor,
    TrueColor,
    DirectColor,
}

impl VisualTypeClass {
    /// The byte code of the class on the wire.
    pub open spec fn spec_code(self) -> u8 {
        match self {
            VisualTypeClass::StaticGray => 0,
            VisualTypeClass::GrayScale => 1,
            VisualTypeClass::StaticColor => 2,
            VisualTypeClass::PseudoColor => 3,
            VisualTypeClass::TrueColor => 4,
            VisualTypeClass::DirectColor => 5,
        }
    }

    /// Decodes a byte code; values above 5 name no class.
    pub fn try_from(value: u8) -> (res: Option<VisualTypeClass>)
        ensures
            match res {
                Some(c) => value <= 5 && c.spec_code() == value,
                None => value > 5,
            },
    {
        match value {
            0 => Some(VisualTypeClass::StaticGray),
            1 => Some(VisualTypeClass::GrayScale),
            2 => Some(VisualTypeClass::StaticColor),
            3 => Some(VisualTypeClass::PseudoColor),
            4 => Some(VisualTypeClass::TrueColor),
            5 => Some(VisualTypeClass::DirectColor),
            _ => None,
        }
    }
}

/// One way a depth can be displayed.
#[derive(Debug, Clone, Copy, PartialEq, Eq, Structural)]
pub struct VisualType {
    pub visual_id: u32,
    pub class: VisualTypeClass,
    pub bits_per_rgb_value: u8,
    pub colormap_entries: u16,
    pub red_mask: u32,
    pub green_mask: u32,
    pub blue_mask: u32,
}

/// Length of one visual-type record.
pub const VISUAL_TYPE_ENC_LEN: usize = 24;

/// Whether `s` begins with a representation of `v`: id, class code, bits per
/// rgb value, colormap entries, the three channel masks, then four reserved
/// bytes.
pub open spec fn visual_type_matches(v: VisualType, s: Seq<u8>) -> bool {
    &&& s.len() >= VISUAL_TYPE_ENC_LEN
    &&& v.visual_id == be32(s.subrange(0, 4))
    &&& v.class.spec_code() == s[4]
    &&& v.bits_per_rgb_value == s[5]
    &&& v.colormap_entries == be16(s.subrange(6, 8))
    &&& v.red_mask == be32(s.subrange(8, 12))
    &&& v.green_mask == be32(s.subrange(12, 16))
    &&& v.blue_mask == be32(s.subrange(16, 20))
}

impl VisualType {
    /// Decodes one 24-byte visual-type record.
    pub fn read(r: &mut Reader) -> (res: Result<VisualType, Error>)
        requires
            old(r).wf(),
        ensures
            final(r).wf(),
            final(r).data() == old(r).data(),
            match res {
                Ok(v) => visual_type_matches(v, old(r).remaining()) && final(r).position() == old(
                    r,
                ).position() + VISUAL_TYPE_ENC_LEN,
                Err(e) => (if old(r).remaining().len() < VISUAL_TYPE_ENC_LEN {
                    e == Error::Transport
                } else {
                    e == Error::Protocol && old(r).remaining()[4] > 5
                }) && (forall|v: VisualType| !visual_type_matches(v, old(r).remaining())),
            },
    {
        if r.left() < VISUAL_TYPE_ENC_LEN {
            return Err(Error::Transport);
        }
        let ghost b = old(r).remaining();
        let visual_id = read_u32(r).unwrap();
        let class_code = read_u8(r).unwrap();
        let bits_per_rgb_value = read_u8(r).unwrap();
        let colormap_entries = read_u16(r).unwrap();
        let red_mask = read_u32(r).unwrap();
        let green_mask = read_u32(r).unwrap();
        let blue_mask = read_u32(r).unwrap();
        proof {
            assert(b.take(4) =~= b.subrange(0, 4));
            assert(b.skip(6).take(2) =~= b.subrange(6, 8));
            assert(b.skip(8).take(4) =~= b.subrange(8, 12));
            assert(b.skip(12).take(4) =~= b.subrange(12, 16));
            assert(b.skip(16).take(4) =~= b.subrange(16, 20));
        }
        let class = match VisualTypeClass::try_from(class_code) {
            Some(c) => c,
            None => {
                return Err(Error::Protocol);
            },
        };
        skip(r, 4).unwrap();
        Ok(VisualType {
            visual_id,
            class,
            bits_per_rgb_value,
            colormap_entries,
            red_mask,
            green_mask,
            blue_mask,
        })
    }
}



/// The ghost value of a depth: its visual types, with the redundant count
/// dropped.
#[verifier::ext_equal]
pub ghost struct DepthModel {
    pub depth: u8,
    pub visual_types: Seq<VisualType>,
}

/// One pixel depth a screen supports, with its visual types.
#[derive(Debug, PartialEq)]
pub struct Depth {
    pub depth: u8,
    pub visual_type_count: u16,
    pub visual_types: Vec<VisualType>,
}

impl View for Depth {
    type V = DepthModel;

    open spec fn view(&self) -> DepthModel {
        DepthModel { depth: self.depth, visual_types: self.visual_types@ }
    }
}

impl Depth {
    /// The stored count is the count that was decoded, so it equals the
    /// number of records that follow it.
    pub open spec fn wf(&self) -> bool {
        self.visual_type_count == self.visual_types@.len()
    }
}

/// Length of a depth record's fixed header.
pub const DEPTH_HEADER_LEN: usize = 8;

/// Exact length of the representation of `d`.
pub open spec fn depth_enc_len(d: DepthModel) -> int {
    DEPTH_HEADER_LEN + VISUAL_TYPE_ENC_LEN * d.visual_types.len()
}

/// Whether `s` begins with the given visual types, one fixed-size record
/// after the other.
pub open spec fn visual_types_match(vs: Seq<VisualType>, s: Seq<u8>) -> bool {
    forall|i: int|
        0 <= i < vs.len() ==> visual_type_matches(#[trigger] vs[i], s.skip(VISUAL_TYPE_ENC_LEN * i))
}

/// Whether `s` begins with a representation of `d`: the depth byte, a
/// reserved byte, the visual-type count, four reserved bytes, then exactly
/// that many visual-type records.
pub open spec fn depth_matches(d: DepthModel, s: Seq<u8>) -> bool {
    &&& s.len() >= depth_enc_len(d)
    &&& d.depth == s[0]
    &&& d.visual_types.len() == be16(s.subrange(2, 4))
    &&& visual_types_match(d.visual_types, s.skip(DEPTH_HEADER_LEN as int))
}

impl Depth {
    /// Decodes one depth record: the 8-byte header, then exactly as many
    /// visual types as the header declares.
    pub fn read(r: &mut Reader) -> (res: Result<Depth, Error>)
        requires
            old(r).wf(),
        ensures
            final(r).wf(),
            final(r).data() == old(r).data(),
            match res {
                Ok(d) => d.wf() && depth_matches(d@, old(r).remaining()) && final(r).position()
                    == old(r).position() + depth_enc_len(d@),
                Err(e) => (e == Error::Transport || e == Error::Protocol) && (forall|m: DepthModel|
                    !depth_matches(m, old(r).remaining())),
            },
    {
        let ghost b = old(r).remaining();
        if r.left() < DEPTH_HEADER_LEN {
            proof {
                assert forall|m: DepthModel| !depth_matches(m, b) by {
                    assert(VISUAL_TYPE_ENC_LEN * m.visual_types.len() >= 0);
                }
            }
            return Err(Error::Transport);
        }
        let depth = read_u8(r).unwrap();
        let _unused = read_u8(r).unwrap();
        let visual_type_count = read_u16(r).unwrap();
        skip(r, 4).unwrap();
        proof {
            assert(b.skip(2).take(2) =~= b.subrange(2, 4));
        }
        let mut visual_types: Vec<VisualType> = Vec::new();
        let mut i: u16 = 0;
        while i < visual_type_count
            invariant
                old(r).wf(),
                r.wf(),
                r.data() == old(r).data(),
                b == old(r).remaining(),
                i <= visual_type_count,
                visual_types@.len() == i,
                r.position() == old(r).position() + DEPTH_HEADER_LEN + VISUAL_TYPE_ENC_LEN * i,
                b.len() >= DEPTH_HEADER_LEN,
                depth == b[0],
                visual_type_count == be16(b.subrange(2, 4)),
                forall|j: int|
                    0 <= j < i ==> visual_type_matches(
                        #[trigger] visual_types@[j],
                        b.skip(DEPTH_HEADER_LEN as int).skip(VISUAL_TYPE_ENC_LEN * j),
                    ),
            decreases visual_type_count - i,
        {
            let ghost rem_i = r.remaining();
            proof {
                assert(rem_i =~= b.skip(DEPTH_HEADER_LEN as int).skip(
                    VISUAL_TYPE_ENC_LEN * (i as int),
                ));
            }
            match VisualType::read(r) {
                Ok(v) => {
                    visual_types.push(v);
                    i = i + 1;
                },
                Err(e) => {
                    proof {
                        assert forall|m: DepthModel| !depth_matches(m, b) by {
                            if depth_matches(m, b) {
                                assert(m.visual_types.len() == visual_type_count);
                                assert(visual_type_matches(
                                    m.visual_types[i as int],
                                    b.skip(DEPTH_HEADER_LEN as int).skip(
                                        VISUAL_TYPE_ENC_LEN * (i as int),
                                    ),
                                ));
                                assert(visual_type_matches(m.visual_types[i as int], rem_i));
                            }
                        }
                    }
                    return Err(e);
                },
            }
        }
        proof {
            let d = DepthModel { depth, visual_types: visual_types@ };
            assert(b.len() >= depth_enc_len(d));
            assert(depth_matches(d, b));
        }
        Ok(Depth { depth, visual_type_count, visual_types })
    }
}

/// Whether `s` begins with the given depths, each record directly after the
/// previous one.
pub open spec fn depths_match(ds: Seq<DepthModel>, s: Seq<u8>) -> bool
    decreases ds.len(),
{
    ds.len() == 0 || (depth_matches(ds[0], s) && depths_match(
        ds.skip(1),
        s.skip(depth_enc_len(ds[0])),
    ))
}

/// Exact length of the representation of the given depths.
pub open spec fn depths_enc_len(ds: Seq<DepthModel>) -> int
    decreases ds.len(),
{
    if ds.len() == 0 {
        0
    } else {
        depth_enc_len(ds[0]) + depths_enc_len(ds.skip(1))
    }
}

pub proof fn lemma_depths_enc_len_nonneg(ds: Seq<DepthModel>)
    ensures
        depths_enc_len(ds) >= 0,
    decreases ds.len(),
{
    if ds.len() > 0 {
        lemma_depths_enc_len_nonneg(ds.skip(1));
        assert(VISUAL_TYPE_ENC_LEN * ds[0].visual_types.len() >= 0);
    }
}

/// Appending one more matching record to a matching prefix.
pub proof fn lemma_depths_match_push(ds: Seq<DepthModel>, x: DepthModel, s: Seq<u8>)
    requires
        depths_match(ds, s),
        0 <= depths_enc_len(ds),
        depths_enc_len(ds) + depth_enc_len(x) <= s.len(),
        depth_matches(x, s.skip(depths_enc_len(ds))),
    ensures
        depths_match(ds.push(x), s),
        depths_enc_len(ds.push(x)) == depths_enc_len(ds) + depth_enc_len(x),
    decreases ds.len(),
{
    if ds.len() == 0 {
        assert(ds.push(x)[0] == x);
        assert(s.skip(0) =~= s);
        assert(ds.push(x).skip(1) =~= Seq::<DepthModel>::empty());
        assert(depths_enc_len(ds) == 0);
        assert(depth_matches(x, s));
        assert(depths_match(ds.push(x).skip(1), s.skip(depth_enc_len(x))));
        assert(ds.push(x).len() != 0);
        assert(depths_match(ds.push(x), s));
        assert(depths_enc_len(ds.push(x)) == depth_enc_len(x) + depths_enc_len(ds.push(x).skip(1)));
    } else {
        let e0 = depth_enc_len(ds[0]);
        lemma_depths_enc_len_nonneg(ds.skip(1));
        assert(VISUAL_TYPE_ENC_LEN * ds[0].visual_types.len() >= 0);
        assert(e0 + depths_enc_len(ds.skip(1)) + depth_enc_len(x) <= s.len());
        assert(s.skip(e0).skip(depths_enc_len(ds.skip(1))) =~= s.skip(
            e0 + depths_enc_len(ds.skip(1)),
        ));
        lemma_depths_match_push(ds.skip(1), x, s.skip(e0));
        assert(ds.push(x).skip(1) =~= ds.skip(1).push(x));
        assert(ds.push(x)[0] == ds[0]);
    }
}

/// Where record `i` of a matching sequence stands: after the records before
/// it.
pub proof fn lemma_depths_match_index(ds: Seq<DepthModel>, s: Seq<u8>, i: int)
    requires
        depths_match(ds, s),
        0 <= i < ds.len(),
    ensures
        depth_matches(ds[i], s.skip(depths_enc_len(ds.take(i)))),
    decreases i,
{
    if i == 0 {
        assert(ds.take(0) =~= Seq::<DepthModel>::empty());
        assert(s.skip(0) =~= s);
    } else {
        let e0 = depth_enc_len(ds[0]);
        lemma_depths_match_index(ds.skip(1), s.skip(e0), i - 1);
        assert(ds.skip(1)[i - 1] == ds[i]);
        assert(ds.skip(1).take(i - 1) =~= ds.take(i).skip(1));
        assert(ds.take(i)[0] == ds[0]);
        assert(depths_enc_len(ds.take(i)) == e0 + depths_enc_len(ds.take(i).skip(1)));
        lemma_depths_enc_len_nonneg(ds.take(i).skip(1));
        assert(VISUAL_TYPE_ENC_LEN * ds[0].visual_types.len() >= 0);
        if e0 + depths_enc_len(ds.take(i).skip(1)) <= s.len() {
            assert(s.skip(e0).skip(depths_enc_len(ds.take(i).skip(1))) =~= s.skip(
                depths_enc_len(ds.take(i)),
            ));
        } else {
            lemma_depths_match_len(ds.skip(1), s.skip(e0));
            lemma_depths_enc_len_take(ds.skip(1), i - 1);
            assert(false);
        }
    }
}

/// A matching sequence fits in the bytes it matches.
pub proof fn lemma_depths_match_len(ds: Seq<DepthModel>, s: Seq<u8>)
    requires
        depths_match(ds, s),
    ensures
        depths_enc_len(ds) <= s.len(),
    decreases ds.len(),
{
    if ds.len() > 0 {
        lemma_depths_match_len(ds.skip(1), s.skip(depth_enc_len(ds[0])));
    }
}

/// A prefix never takes more bytes than the whole.
pub proof fn lemma_depths_enc_len_take(ds: Seq<DepthModel>, i: int)
    requires
        0 <= i <= ds.len(),
    ensures
        depths_enc_len(ds.take(i)) <= depths_enc_len(ds),
        depths_enc_len(ds.take(i)) >= 0,
    decreases i,
{
    lemma_depths_enc_len_nonneg(ds.take(i));
    if i > 0 {
        lemma_depths_enc_len_take(ds.skip(1), i - 1);
        assert(ds.take(i).skip(1) =~= ds.skip(1).take(i - 1));
        assert(ds.take(i)[0] == ds[0]);
        lemma_depths_enc_len_nonneg(ds.skip(1));
        assert(depths_enc_len(ds) == depth_enc_len(ds[0]) + depths_enc_len(ds.skip(1)));
    } else {
        assert(ds.take(0) =~= Seq::<DepthModel>::empty());
        lemma_depths_enc_len_nonneg(ds);
    }
}

/// Two depth sequences of equal length matching the same bytes are equal.
pub proof fn lemma_depths_match_unique(a: Seq<DepthModel>, b: Seq<DepthModel>, s: Seq<u8>)
    requires
        depths_match(a, s),
        depths_match(b, s),
        a.len() == b.len(),
    ensures
        a == b,
    decreases a.len(),
{
    if a.len() > 0 {
        lemma_depth_matches_unique(a[0], b[0], s);
        lemma_depths_match_unique(a.skip(1), b.skip(1), s.skip(depth_enc_len(a[0])));
        assert forall|i: int| 0 <= i < a.len() implies a[i] == b[i] by {
            if i > 0 {
                assert(a[i] == a.skip(1)[i - 1]);
                assert(b[i] == b.skip(1)[i - 1]);
            }
        }
        assert(a =~= b);
    } else {
        assert(a =~= b);
    }
}

/// Appending a record adds its length.
pub proof fn lemma_depths_enc_len_push(ds: Seq<DepthModel>, x: DepthModel)
    ensures
        depths_enc_len(ds.push(x)) == depths_enc_len(ds) + depth_enc_len(x),
    decreases ds.len(),
{
    if ds.len() == 0 {
        assert(ds.push(x)[0] == x);
        assert(ds.push(x).skip(1) =~= Seq::<DepthModel>::empty());
        assert(depths_enc_len(ds) == 0);
        assert(depths_enc_len(ds.push(x)) == depth_enc_len(x) + depths_enc_len(ds.push(x).skip(1)));
    } else {
        lemma_depths_enc_len_push(ds.skip(1), x);
        assert(ds.push(x).skip(1) =~= ds.skip(1).push(x));
        assert(ds.push(x)[0] == ds[0]);
        assert(depths_enc_len(ds.push(x)) == depth_enc_len(ds[0]) + depths_enc_len(
            ds.push(x).skip(1),
        ));
    }
}

/// One more record of a prefix adds that record's length.
pub proof fn lemma_depths_enc_len_take_succ(ds: Seq<DepthModel>, i: int)
    requires
        0 <= i < ds.len(),
    ensures
        depths_enc_len(ds.take(i + 1)) == depths_enc_len(ds.take(i)) + depth_enc_len(ds[i]),
{
    assert(ds.take(i + 1) =~= ds.take(i).push(ds[i]));
    lemma_depths_enc_len_push(ds.take(i), ds[i]);
}

/// Two depths matching the same bytes are the same depth.
pub proof fn lemma_depth_matches_unique(a: DepthModel, b: DepthModel, s: Seq<u8>)
    requires
        depth_matches(a, s),
        depth_matches(b, s),
    ensures
        a == b,
{
    assert(a.visual_types.len() == b.visual_types.len());
    assert forall|i: int| 0 <= i < a.visual_types.len() implies a.visual_types[i]
        == b.visual_types[i] by {
        let rest = s.skip(DEPTH_HEADER_LEN as int).skip(VISUAL_TYPE_ENC_LEN * i);
        assert(visual_type_matches(a.visual_types[i], rest));
        assert(visual_type_matches(b.visual_types[i], rest));
    }
    assert(a.visual_types =~= b.visual_types);
    assert(a =~= b);
}

/// The ghost value of a screen: its fields and depths, with the redundant
/// count dropped.
#[verifier::ext_equal]
pub ghost struct ScreenModel {
    pub root_window: u32,
    pub colormap: u32,
    pub white_pixel: u32,
    pub black_pixel: u32,
    pub current_input_masks: u32,
    pub width_in_pixels: u16,
    pub height_in_pixels: u16,
    pub width_in_millimeters: u16,
    pub height_in_millimeters: u16,
    pub min_installed_maps: u16,
    pub max_installed_maps: u16,
    pub root_visual: u32,
    pub backing_stores: BackingStores,
    pub save_unders: u8,
    pub root_depth: u8,
    pub depths: Seq<DepthModel>,
}

/// One display surface the server announces.
#[derive(Debug, PartialEq)]
pub struct Screen {
    pub root_window: u32,
    pub colormap: u32,
    pub white_pixel: u32,
    pub black_pixel: u32,
    pub current_input_masks: u32,
    pub width_in_pixels: u16,
    pub height_in_pixels: u16,
    pub width_in_millimeters: u16,
    pub height_in_millimeters: u16,
    pub min_installed_maps: u16,
    pub max_installed_maps: u16,
    pub root_visual: u32,
    pub backing_stores: BackingStores,
    pub save_unders: u8,
    pub root_depth: u8,
    pub allowed_depth_count: u8,
    pub depths: Vec<Depth>,
}

/// The ghost depths of a vector of decoded depths.
pub open spec fn depth_models(v: Seq<Depth>) -> Seq<DepthModel> {
    v.map_values(|d: Depth| d@)
}

impl View for Screen {
    type V = ScreenModel;

    open spec fn view(&self) -> ScreenModel {
        ScreenModel {
            root_window: self.root_window,
            colormap: self.colormap,
            white_pixel: self.white_pixel,
            black_pixel: self.black_pixel,
            current_input_masks: self.current_input_masks,
            width_in_pixels: self.width_in_pixels,
            height_in_pixels: self.height_in_pixels,
            width_in_millimeters: self.width_in_millimeters,
            height_in_millimeters: self.height_in_millimeters,
            min_installed_maps: self.min_installed_maps,
            max_installed_maps: self.max_installed_maps,
            root_visual: self.root_visual,
            backing_stores: self.backing_stores,
            save_unders: self.save_unders,
            root_depth: self.root_depth,
            depths: depth_models(self.depths@),
        }
    }
}

impl Screen {
    /// The stored count equals the number of depths, and each depth is
    /// well formed.
    pub open spec fn wf(&self) -> bool {
        &&& self.allowed_depth_count == self.depths@.len()
        &&& forall|i: int| 0 <= i < self.depths@.len() ==> (#[trigger] self.depths@[i]).wf()
    }
}

/// Length of a screen record's fixed header.
pub const SCREEN_HEADER_LEN: usize = 40;

/// Exact length of the representation of `sc`.
pub open spec fn screen_enc_len(sc: ScreenModel) -> int {
    SCREEN_HEADER_LEN + depths_enc_len(sc.depths)
}

/// Whether `s` begins with a representation of `sc`: the 40-byte header,
/// then exactly as many depth records as the header declares.
pub open spec fn screen_matches(sc: ScreenModel, s: Seq<u8>) -> bool {
    &&& s.len() >= SCREEN_HEADER_LEN
    &&& sc.root_window == be32(s.subrange(0, 4))
    &&& sc.colormap == be32(s.subrange(4, 8))
    &&& sc.white_pixel == be32(s.subrange(8, 12))
    &&& sc.black_pixel == be32(s.subrange(12, 16))
    &&& sc.current_input_masks == be32(s.subrange(16, 20))
    &&& sc.width_in_pixels == be16(s.subrange(20, 22))
    &&& sc.height_in_pixels == be16(s.subrange(22, 24))
    &&& sc.width_in_millimeters == be16(s.subrange(24, 26))
    &&& sc.height_in_millimeters == be16(s.subrange(26, 28))
    &&& sc.min_installed_maps == be16(s.subrange(28, 30))
    &&& sc.max_installed_maps == be16(s.subrange(30, 32))
    &&& sc.root_visual == be32(s.subrange(32, 36))
    &&& sc.backing_stores.spec_code() == s[36]
    &&& sc.save_unders == s[37]
    &&& sc.root_depth == s[38]
    &&& sc.depths.len() == s[39]
    &&& depths_match(sc.depths, s.skip(SCREEN_HEADER_LEN as int))
}

impl Screen {
    /// Decodes one screen record: the 40-byte header, then exactly as many
    /// depths as the header declares.
    #[verifier::loop_isolation(false)]
    pub fn read(r: &mut Reader) -> (res: Result<Screen, Error>)
        requires
            old(r).wf(),
        ensures
            final(r).wf(),
            final(r).data() == old(r).data(),
            match res {
                Ok(sc) => sc.wf() && screen_matches(sc@, old(r).remaining()) && final(r).position()
                    == old(r).position() + screen_enc_len(sc@),
                Err(e) => (e == Error::Transport || e == Error::Protocol) && (forall|
                    m: ScreenModel,
                |
                    !screen_matches(m, old(r).remaining())),
            },
    {
        let ghost b = old(r).remaining();
        if r.left() < SCREEN_HEADER_LEN {
            return Err(Error::Transport);
        }
        let root_window = read_u32(r).unwrap();
        let colormap = read_u32(r).unwrap();
        let white_pixel = read_u32(r).unwrap();
        let black_pixel = read_u32(r).unwrap();
        let current_input_masks = read_u32(r).unwrap();
        let width_in_pixels = read_u16(r).unwrap();
        let height_in_pixels = read_u16(r).unwrap();
        let width_in_millimeters = read_u16(r).unwrap();
        let height_in_millimeters = read_u16(r).unwrap();
        let min_installed_maps = read_u16(r).unwrap();
        let max_installed_maps = read_u16(r).unwrap();
        let root_visual = read_u32(r).unwrap();
        proof {
            assert(b.take(4) =~= b.subrange(0, 4));
            assert(b.skip(4).take(4) =~= b.subrange(4, 8));
            assert(b.skip(8).take(4) =~= b.subrange(8, 12));
            assert(b.skip(12).take(4) =~= b.subrange(12, 16));
            assert(b.skip(16).take(4) =~= b.subrange(16, 20));
            assert(b.skip(20).take(2) =~= b.subrange(20, 22));
            assert(b.skip(22).take(2) =~= b.subrange(22, 24));
            assert(b.skip(24).take(2) =~= b.subrange(24, 26));
            assert(b.skip(26).take(2) =~= b.subrange(26, 28));
            assert(b.skip(28).take(2) =~= b.subrange(28, 30));
            assert(b.skip(30).take(2) =~= b.subrange(30, 32));
            assert(b.skip(32).take(4) =~= b.subrange(32, 36));
        }
        let backing_stores_code = read_u8(r).unwrap();
        let backing_stores = match BackingStores::try_from(backing_stores_code) {
            Some(bs) => bs,
            None => {
                return Err(Error::Protocol);
            },
        };
        let save_unders = read_u8(r).unwrap();
        let root_depth = read_u8(r).unwrap();
        let allowed_depth_count = read_u8(r).unwrap();
        let ghost s0 = b.skip(SCREEN_HEADER_LEN as int);
        let mut depths: Vec<Depth> = Vec::new();
        let mut i: u8 = 0;
        while i < allowed_depth_count
            invariant
                i <= allowed_depth_count,
                depths@.len() == i,
                r.wf(),
                r.data() == old(r).data(),
                r.position() == old(r).position() + SCREEN_HEADER_LEN + depths_enc_len(
                    depth_models(depths@),
                ),
                depths_match(depth_models(depths@), s0),
                forall|j: int| 0 <= j < i ==> (#[trigger] depths@[j]).wf(),
                forall|m: ScreenModel|
                    #[trigger] screen_matches(m, b) ==> depths_enc_len(m.depths.take(i as int))
                        == depths_enc_len(depth_models(depths@)),
            decreases allowed_depth_count - i,
        {
            let ghost cur = depth_models(depths@);
            let ghost consumed = depths_enc_len(cur);
            let ghost rem_i = r.remaining();
            proof {
                lemma_depths_enc_len_nonneg(cur);
                assert(rem_i =~= s0.skip(consumed));
            }
            match Depth::read(r) {
                Ok(d) => {
                    proof {
                        lemma_depths_match_len(cur, s0);
                        lemma_depths_match_push(cur, d@, s0);
                        assert forall|m: ScreenModel| #[trigger] screen_matches(m, b) implies
                            depths_enc_len(m.depths.take(i + 1)) == depths_enc_len(
                            cur.push(d@),
                        ) by {
                            assert(m.depths.len() == allowed_depth_count);
                            lemma_depths_match_index(m.depths, s0, i as int);
                            lemma_depth_matches_unique(m.depths[i as int], d@, s0.skip(consumed));
                            lemma_depths_enc_len_take_succ(m.depths, i as int);
                            lemma_depths_enc_len_push(cur, d@);
                        }
                    }
                    depths.push(d);
                    i = i + 1;
                    proof {
                        assert(depth_models(depths@) =~= cur.push(d@));
                    }
                },
                Err(e) => {
                    proof {
                        assert forall|m: ScreenModel| !screen_matches(m, b) by {
                            if screen_matches(m, b) {
                                assert(m.depths.len() == allowed_depth_count);
                                lemma_depths_match_index(m.depths, s0, i as int);
                                assert(depth_matches(m.depths[i as int], s0.skip(consumed)));
                            }
                        }
                    }
                    return Err(e);
                },
            }
        }
        let sc = Screen {
            root_window,
            colormap,
            white_pixel,
            black_pixel,
            current_input_masks,
            width_in_pixels,
            height_in_pixels,
            width_in_millimeters,
            height_in_millimeters,
            min_installed_maps,
            max_installed_maps,
            root_visual,
            backing_stores,
            save_unders,
            root_depth,
            allowed_depth_count,
            depths,
        };
        proof {
            assert(screen_matches(sc@, b));
        }
        Ok(sc)
    }
}

/// Two screens matching the same bytes are the same screen.
pub proof fn lemma_screen_matches_unique(a: ScreenModel, b: ScreenModel, s: Seq<u8>)
    requires
        screen_matches(a, s),
        screen_matches(b, s),
    ensures
        a == b,
{
    lemma_depths_match_unique(a.depths, b.depths, s.skip(SCREEN_HEADER_LEN as int));
    assert(a =~= b);
}

/// Whether `s` begins with the given screens, each record directly after the
/// previous one.
pub open spec fn screens_match(ss: Seq<ScreenModel>, s: Seq<u8>) -> bool
    decreases ss.len(),
{
    ss.len() == 0 || (screen_matches(ss[0], s) && screens_match(
        ss.skip(1),
        s.skip(screen_enc_len(ss[0])),
    ))
}

/// Exact length of the representation of the given screens.
pub open spec fn screens_enc_len(ss: Seq<ScreenModel>) -> int
    decreases ss.len(),
{
    if ss.len() == 0 {
        0
    } else {
        screen_enc_len(ss[0]) + screens_enc_len(ss.skip(1))
    }
}

pub proof fn lemma_screens_enc_len_nonneg(ss: Seq<ScreenModel>)
    ensures
        screens_enc_len(ss) >= 0,
    decreases ss.len(),
{
    if ss.len() > 0 {
        lemma_screens_enc_len_nonneg(ss.skip(1));
        lemma_depths_enc_len_nonneg(ss[0].depths);
    }
}

/// Appending one more matching record to a matching prefix.
pub proof fn lemma_screens_match_push(ss: Seq<ScreenModel>, x: ScreenModel, s: Seq<u8>)
    requires
        screens_match(ss, s),
        0 <= screens_enc_len(ss),
        screens_enc_len(ss) + screen_enc_len(x) <= s.len(),
        screen_matches(x, s.skip(screens_enc_len(ss))),
    ensures
        screens_match(ss.push(x), s),
    decreases ss.len(),
{
    if ss.len() == 0 {
        assert(ss.push(x)[0] == x);
        assert(s.skip(0) =~= s);
        assert(ss.push(x).skip(1) =~= Seq::<ScreenModel>::empty());
        assert(screens_enc_len(ss) == 0);
        assert(screen_matches(x, s));
        assert(screens_match(ss.push(x).skip(1), s.skip(screen_enc_len(x))));
        assert(screens_match(ss.push(x), s));
    } else {
        let e0 = screen_enc_len(ss[0]);
        lemma_screens_enc_len_nonneg(ss.skip(1));
        lemma_depths_enc_len_nonneg(ss[0].depths);
        lemma_depths_enc_len_nonneg(x.depths);
        assert(screens_enc_len(ss) == e0 + screens_enc_len(ss.skip(1)));
        assert(e0 + screens_enc_len(ss.skip(1)) + screen_enc_len(x) <= s.len());
        assert(s.skip(e0).skip(screens_enc_len(ss.skip(1))) =~= s.skip(
            e0 + screens_enc_len(ss.skip(1)),
        ));
        lemma_screens_match_push(ss.skip(1), x, s.skip(e0));
        assert(ss.push(x).skip(1) =~= ss.skip(1).push(x));
        assert(ss.push(x)[0] == ss[0]);
        assert(screens_match(ss.push(x), s));
    }
}

/// Appending a record adds its length.
pub proof fn lemma_screens_enc_len_push(ss: Seq<ScreenModel>, x: ScreenModel)
    ensures
        screens_enc_len(ss.push(x)) == screens_enc_len(ss) + screen_enc_len(x),
    decreases ss.len(),
{
    if ss.len() == 0 {
        assert(ss.push(x)[0] == x);
        assert(ss.push(x).skip(1) =~= Seq::<ScreenModel>::empty());
        assert(screens_enc_len(ss) == 0);
        assert(screens_enc_len(ss.push(x)) == screen_enc_len(x) + screens_enc_len(
            ss.push(x).skip(1),
        ));
    } else {
        lemma_screens_enc_len_push(ss.skip(1), x);
        assert(ss.push(x).skip(1) =~= ss.skip(1).push(x));
        assert(ss.push(x)[0] == ss[0]);
        assert(screens_enc_len(ss.push(x)) == screen_enc_len(ss[0]) + screens_enc_len(
            ss.push(x).skip(1),
        ));
    }
}

/// One more record of a prefix adds that record's length.
pub proof fn lemma_screens_enc_len_take_succ(ss: Seq<ScreenModel>, i: int)
    requires
        0 <= i < ss.len(),
    ensures
        screens_enc_len(ss.take(i + 1)) == screens_enc_len(ss.take(i)) + screen_enc_len(ss[i]),
{
    assert(ss.take(i + 1) =~= ss.take(i).push(ss[i]));
    lemma_screens_enc_len_push(ss.take(i), ss[i]);
}

/// Where record `i` of a matching sequence stands: after the records before
/// it.
pub proof fn lemma_screens_match_index(ss: Seq<ScreenModel>, s: Seq<u8>, i: int)
    requires
        screens_match(ss, s),
        0 <= i < ss.len(),
    ensures
        screen_matches(ss[i], s.skip(screens_enc_len(ss.take(i)))),
    decreases i,
{
    if i == 0 {
        assert(ss.take(0) =~= Seq::<ScreenModel>::empty());
        assert(s.skip(0) =~= s);
    } else {
        let e0 = screen_enc_len(ss[0]);
        lemma_screens_match_index(ss.skip(1), s.skip(e0), i - 1);
        assert(ss.skip(1)[i - 1] == ss[i]);
        assert(ss.skip(1).take(i - 1) =~= ss.take(i).skip(1));
        assert(ss.take(i)[0] == ss[0]);
        assert(screens_enc_len(ss.take(i)) == e0 + screens_enc_len(ss.take(i).skip(1)));
        lemma_screens_enc_len_nonneg(ss.take(i).skip(1));
        lemma_depths_enc_len_nonneg(ss[0].depths);
        lemma_depths_match_len(ss[0].depths, s.skip(SCREEN_HEADER_LEN as int));
        assert(0 <= e0 <= s.len());
        if e0 + screens_enc_len(ss.take(i).skip(1)) <= s.len() {
            assert(s.skip(e0).skip(screens_enc_len(ss.take(i).skip(1))) =~= s.skip(
                screens_enc_len(ss.take(i)),
            ));
        } else {
            lemma_screens_match_len(ss.skip(1), s.skip(e0));
            lemma_screens_enc_len_take(ss.skip(1), i - 1);
            assert(false);
        }
    }
}

/// A matching sequence fits in the bytes it matches.
pub proof fn lemma_screens_match_len(ss: Seq<ScreenModel>, s: Seq<u8>)
    requires
        screens_match(ss, s),
    ensures
        screens_enc_len(ss) <= s.len(),
    decreases ss.len(),
{
    if ss.len() > 0 {
        lemma_depths_match_len(ss[0].depths, s.skip(SCREEN_HEADER_LEN as int));
        lemma_depths_enc_len_nonneg(ss[0].depths);
        let e0 = screen_enc_len(ss[0]);
        assert(0 <= e0 <= s.len());
        lemma_screens_match_len(ss.skip(1), s.skip(e0));
    }
}

/// A prefix never takes more bytes than the whole.
pub proof fn lemma_screens_enc_len_take(ss: Seq<ScreenModel>, i: int)
    requires
        0 <= i <= ss.len(),
    ensures
        screens_enc_len(ss.take(i)) <= screens_enc_len(ss),
        screens_enc_len(ss.take(i)) >= 0,
    decreases i,
{
    lemma_screens_enc_len_nonneg(ss.take(i));
    if i > 0 {
        lemma_screens_enc_len_take(ss.skip(1), i - 1);
        assert(ss.take(i).skip(1) =~= ss.skip(1).take(i - 1));
        assert(ss.take(i)[0] == ss[0]);
        lemma_screens_enc_len_nonneg(ss.skip(1));
        assert(screens_enc_len(ss) == screen_enc_len(ss[0]) + screens_enc_len(ss.skip(1)));
    } else {
        assert(ss.take(0) =~= Seq::<ScreenModel>::empty());
        lemma_screens_enc_len_nonneg(ss);
    }
}

/// The ghost value of the whole setup record, with the redundant counts
/// dropped; the vendor is its raw bytes, which are valid UTF-8.
#[verifier::ext_equal]
pub ghost struct SetupModel {
    pub protocol_major_version: u16,
    pub protocol_minor_version: u16,
    pub length: u16,
    pub release_number: u32,
    pub resource_id_base: u32,
    pub resource_id_mask: u32,
    pub motion_buffer_size: u32,
    pub maximum_request_length: u16,
    pub image_byte_order: u8,
    pub bitmap_format_bit_order: u8,
    pub bitmap_format_scanline_unit: u8,
    pub bitmap_format_scanline_pad: u8,
    pub min_keycode: u8,
    pub max_keycode: u8,
    pub vendor: Seq<u8>,
    pub pixmap_formats: Seq<PixmapFormat>,
    pub screens: Seq<ScreenModel>,
}

/// Everything the server announces at the handshake; read-only afterwards.
#[derive(Debug, PartialEq)]
pub struct Setup {
    pub protocol_major_version: u16,
    pub protocol_minor_version: u16,
    pub length: u16,
    pub release_number: u32,
    pub resource_id_base: u32,
    pub resource_id_mask: u32,
    pub motion_buffer_size: u32,
    pub vendor_length: u16,
    pub maximum_request_length: u16,
    pub screen_count: u8,
    pub pixmap_format_count: u8,
    pub image_byte_order: u8,
    pub bitmap_format_bit_order: u8,
    pub bitmap_format_scanline_unit: u8,
    pub bitmap_format_scanline_pad: u8,
    pub min_keycode: u8,
    pub max_keycode: u8,
    pub vendor: String,
    pub pixmap_formats: Vec<PixmapFormat>,
    pub screens: Vec<Screen>,
}

/// The ghost screens of a vector of decoded screens.
pub open spec fn screen_models(v: Seq<Screen>) -> Seq<ScreenModel> {
    v.map_values(|sc: Screen| sc@)
}

impl View for Setup {
    type V = SetupModel;

    open spec fn view(&self) -> SetupModel {
        SetupModel {
            protocol_major_version: self.protocol_major_version,
            protocol_minor_version: self.protocol_minor_version,
            length: self.length,
            release_number: self.release_number,
            resource_id_base: self.resource_id_base,
            resource_id_mask: self.resource_id_mask,
            motion_buffer_size: self.motion_buffer_size,
            maximum_request_length: self.maximum_request_length,
            image_byte_order: self.image_byte_order,
            bitmap_format_bit_order: self.bitmap_format_bit_order,
            bitmap_format_scanline_unit: self.bitmap_format_scanline_unit,
            bitmap_format_scanline_pad: self.bitmap_format_scanline_pad,
            min_keycode: self.min_keycode,
            max_keycode: self.max_keycode,
            vendor: encode_utf8(self.vendor@),
            pixmap_formats: self.pixmap_formats@,
            screens: screen_models(self.screens@),
        }
    }
}

impl Setup {
    /// The stored counts equal the decoded lengths, and every screen is
    /// well formed.
    pub open spec fn wf(&self) -> bool {
        &&& self.vendor_length == self@.vendor.len()
        &&& self.screen_count == self.screens@.len()
        &&& self.pixmap_format_count == self.pixmap_formats@.len()
        &&& forall|i: int| 0 <= i < self.screens@.len() ==> (#[trigger] self.screens@[i]).wf()
    }
}

/// Length of the setup record's fixed header, after the status and the one
/// reserved byte.
pub const SETUP_HEADER_LEN: usize = 38;

/// Whether `s` begins with the given pixmap formats, one fixed-size record
/// after the other.
pub open spec fn formats_match(fs: Seq<PixmapFormat>, s: Seq<u8>) -> bool {
    &&& s.len() >= PIXMAP_FORMAT_ENC_LEN * fs.len()
    &&& forall|i: int|
        0 <= i < fs.len() ==> pixmap_format_matches(
            #[trigger] fs[i],
            s.skip(PIXMAP_FORMAT_ENC_LEN * i),
        )
}

/// Exact length of the representation of `m`.
pub open spec fn setup_enc_len(m: SetupModel) -> int {
    SETUP_HEADER_LEN + m.vendor.len() + spec_pad(m.vendor.len() as int) + PIXMAP_FORMAT_ENC_LEN
        * m.pixmap_formats.len() + screens_enc_len(m.screens)
}

/// Whether `s` begins with a representation of `m`: the 38-byte header, the
/// vendor bytes padded to 4, the pixmap formats, then the screens, counts as
/// the header declares.
pub open spec fn setup_matches(m: SetupModel, s: Seq<u8>) -> bool {
    let vlen = m.vendor.len() as int;
    let voff = SETUP_HEADER_LEN + vlen + spec_pad(vlen);
    &&& s.len() >= SETUP_HEADER_LEN
    &&& m.protocol_major_version == be16(s.subrange(0, 2))
    &&& m.protocol_minor_version == be16(s.subrange(2, 4))
    &&& m.length == be16(s.subrange(4, 6))
    &&& m.release_number == be32(s.subrange(6, 10))
    &&& m.resource_id_base == be32(s.subrange(10, 14))
    &&& m.resource_id_mask == be32(s.subrange(14, 18))
    &&& m.motion_buffer_size == be32(s.subrange(18, 22))
    &&& m.vendor.len() == be16(s.subrange(22, 24))
    &&& m.maximum_request_length == be16(s.subrange(24, 26))
    &&& m.screens.len() == s[26]
    &&& m.pixmap_formats.len() == s[27]
    &&& m.image_byte_order == s[28]
    &&& m.bitmap_format_bit_order == s[29]
    &&& m.bitmap_format_scanline_unit == s[30]
    &&& m.bitmap_format_scanline_pad == s[31]
    &&& m.min_keycode == s[32]
    &&& m.max_keycode == s[33]
    &&& s.len() >= voff
    &&& m.vendor == s.subrange(SETUP_HEADER_LEN as int, SETUP_HEADER_LEN + vlen)
    &&& valid_utf8(m.vendor)
    &&& formats_match(m.pixmap_formats, s.skip(voff))
    &&& screens_match(m.screens, s.skip(voff + PIXMAP_FORMAT_ENC_LEN * m.pixmap_formats.len()))
}

/// Two setups matching the same bytes are the same setup: decoding is
/// unambiguous, so decoding the bytes built from given field values gives
/// those values back.
pub proof fn lemma_setup_matches_unique(a: SetupModel, b: SetupModel, s: Seq<u8>)
    requires
        setup_matches(a, s),
        setup_matches(b, s),
    ensures
        a == b,
{
    let vlen = a.vendor.len() as int;
    let voff = SETUP_HEADER_LEN + vlen + spec_pad(vlen);
    assert(a.vendor.len() == b.vendor.len());
    assert(a.vendor == b.vendor);
    assert(a.pixmap_formats.len() == b.pixmap_formats.len());
    assert forall|i: int| 0 <= i < a.pixmap_formats.len() implies a.pixmap_formats[i]
        == b.pixmap_formats[i] by {
        let rest = s.skip(voff).skip(PIXMAP_FORMAT_ENC_LEN * i);
        assert(pixmap_format_matches(a.pixmap_formats[i], rest));
        assert(pixmap_format_matches(b.pixmap_formats[i], rest));
    }
    assert(a.pixmap_formats =~= b.pixmap_formats);
    lemma_screens_match_unique(
        a.screens,
        b.screens,
        s.skip(voff + PIXMAP_FORMAT_ENC_LEN * a.pixmap_formats.len()),
    );
    assert(a =~= b);
}

/// What `read_status` reports when the status byte says the server refused
/// the handshake: the reason string of the declared length, or the fault
/// that kept it from being read.
pub open spec fn failed_outcome(b: Seq<u8>, e: Error) -> bool {
    let n = b[1] as int;
    if b.len() < 8 + n {
        e == Error::Transport
    } else if !valid_utf8(b.subrange(8, 8 + n)) {
        e == Error::Protocol
    } else if b.len() < 8 + n + spec_pad(n) {
        e == Error::Transport
    } else {
        e matches Error::Failed(reason) && reason@ == decode_utf8(b.subrange(8, 8 + n))
    }
}

/// Two screen sequences of equal length matching the same bytes are equal.
pub proof fn lemma_screens_match_unique(a: Seq<ScreenModel>, b: Seq<ScreenModel>, s: Seq<u8>)
    requires
        screens_match(a, s),
        screens_match(b, s),
        a.len() == b.len(),
    ensures
        a == b,
    decreases a.len(),
{
    if a.len() > 0 {
        lemma_screen_matches_unique(a[0], b[0], s);
        lemma_screens_match_unique(a.skip(1), b.skip(1), s.skip(screen_enc_len(a[0])));
        assert forall|i: int| 0 <= i < a.len() implies a[i] == b[i] by {
            if i > 0 {
                assert(a[i] == a.skip(1)[i - 1]);
                assert(b[i] == b.skip(1)[i - 1]);
            }
        }
        assert(a =~= b);
    } else {
        assert(a =~= b);
    }
}

/// Decodes `count` pixmap-format records in a row.
#[verifier::loop_isolation(false)]
fn read_formats(r: &mut Reader, count: u8) -> (res: Result<Vec<PixmapFormat>, Error>)
    requires
        old(r).wf(),
    ensures
        final(r).wf(),
        final(r).data() == old(r).data(),
        match res {
            Ok(v) => v@.len() == count && formats_match(v@, old(r).remaining())
                && final(r).position() == old(r).position() + PIXMAP_FORMAT_ENC_LEN * (
            count as int),
            Err(e) => e == Error::Transport && old(r).remaining().len() < PIXMAP_FORMAT_ENC_LEN * (
            count as int),
        },
{
    let ghost s0 = old(r).remaining();
    let mut formats: Vec<PixmapFormat> = Vec::new();
    let mut i: u8 = 0;
    while i < count
        invariant
            i <= count,
            formats@.len() == i,
            r.wf(),
            r.data() == old(r).data(),
            r.position() == old(r).position() + PIXMAP_FORMAT_ENC_LEN * i,
            forall|j: int|
                0 <= j < i ==> pixmap_format_matches(
                    #[trigger] formats@[j],
                    s0.skip(PIXMAP_FORMAT_ENC_LEN * j),
                ),
        decreases count - i,
    {
        let ghost rem_i = r.remaining();
        proof {
            assert(rem_i =~= s0.skip(PIXMAP_FORMAT_ENC_LEN * (i as int)));
        }
        match PixmapFormat::read(r) {
            Ok(f) => {
                formats.push(f);
                i = i + 1;
            },
            Err(e) => {
                return Err(e);
            },
        }
    }
    Ok(formats)
}

/// Decodes `count` screen records in a row.
#[verifier::loop_isolation(false)]
fn read_screens(r: &mut Reader, count: u8) -> (res: Result<Vec<Screen>, Error>)
    requires
        old(r).wf(),
    ensures
        final(r).wf(),
        final(r).data() == old(r).data(),
        match res {
            Ok(v) => {
                &&& v@.len() == count
                &&& forall|j: int| 0 <= j < v@.len() ==> (#[trigger] v@[j]).wf()
                &&& screens_match(screen_models(v@), old(r).remaining())
                &&& final(r).position() == old(r).position() + screens_enc_len(screen_models(v@))
            },
            Err(e) => (e == Error::Transport || e == Error::Protocol) && (forall|
                ms: Seq<ScreenModel>,
            |
                ms.len() == count ==> !screens_match(ms, old(r).remaining())),
        },
{
    let ghost s0 = old(r).remaining();
    let mut screens: Vec<Screen> = Vec::new();
    let mut k: u8 = 0;
    while k < count
        invariant
            k <= count,
            screens@.len() == k,
            r.wf(),
            r.data() == old(r).data(),
            r.position() == old(r).position() + screens_enc_len(screen_models(screens@)),
            screens_match(screen_models(screens@), s0),
            forall|j: int| 0 <= j < k ==> (#[trigger] screens@[j]).wf(),
            forall|ms: Seq<ScreenModel>|
                ms.len() == count && #[trigger] screens_match(ms, s0) ==> screens_enc_len(
                    ms.take(k as int),
                ) == screens_enc_len(screen_models(screens@)),
        decreases count - k,
    {
        let ghost cur = screen_models(screens@);
        let ghost consumed = screens_enc_len(cur);
        let ghost rem_k = r.remaining();
        proof {
            lemma_screens_enc_len_nonneg(cur);
            assert(rem_k =~= s0.skip(consumed));
        }
        match Screen::read(r) {
            Ok(sc) => {
                proof {
                    lemma_screens_match_len(cur, s0);
                    lemma_screens_match_push(cur, sc@, s0);
                    assert forall|ms: Seq<ScreenModel>|
                        ms.len() == count && #[trigger] screens_match(ms, s0) implies
                        screens_enc_len(ms.take(k + 1)) == screens_enc_len(cur.push(sc@)) by {
                        lemma_screens_match_index(ms, s0, k as int);
                        lemma_screen_matches_unique(ms[k as int], sc@, s0.skip(consumed));
                        lemma_screens_enc_len_take_succ(ms, k as int);
                        lemma_screens_enc_len_push(cur, sc@);
                    }
                }
                screens.push(sc);
                k = k + 1;
                proof {
                    lemma_screens_enc_len_push(cur, sc@);
                    assert(screen_models(screens@) =~= cur.push(sc@));
                }
            },
            Err(e) => {
                proof {
                    assert forall|ms: Seq<ScreenModel>| ms.len() == count implies !screens_match(
                        ms,
                        s0,
                    ) by {
                        if screens_match(ms, s0) {
                            lemma_screens_match_index(ms, s0, k as int);
                            assert(screen_matches(ms[k as int], s0.skip(consumed)));
                        }
                    }
                }
                return Err(e);
            },
        }
    }
    Ok(screens)
}

/// The 12-byte client prologue: most-significant-byte-first marker, a
/// reserved byte, protocol version 11.0, empty authorization name and data,
/// and two reserved bytes.
pub open spec fn spec_prologue() -> Seq<u8> {
    seq![0x42u8, 0u8] + be16_bytes(11) + be16_bytes(0) + be16_bytes(0) + be16_bytes(0)
        + be16_bytes(0)
}

impl Setup {
    /// Appends the client prologue that opens the handshake.
    pub fn write(w: &mut Vec<u8>)
        ensures
            final(w)@ == old(w)@ + spec_prologue(),
    {
        write_u8(w, 0x42);
        write_u8(w, 0);
        write_u16(w, 11);
        write_u16(w, 0);
        write_u16(w, 0);
        write_u16(w, 0);
        write_u16(w, 0);
        proof {
            assert(final(w)@ =~= old(w)@ + spec_prologue());
        }
    }

    /// Consumes the server's status byte. Success consumes exactly one byte;
    /// a refusal reads the reason string and surfaces it; a demand for
    /// credentials and a meaningless status byte surface as their own
    /// errors.
    pub fn read_status(r: &mut Reader) -> (res: Result<(), Error>)
        requires
            old(r).wf(),
        ensures
            final(r).wf(),
            final(r).data() == old(r).data(),
            ({
                let b = old(r).remaining();
                match res {
                    Ok(()) => b.len() >= 1 && b[0] == 1 && final(r).position() == old(r).position()
                        + 1,
                    Err(e) => (if b.len() < 1 {
                        e == Error::Transport
                    } else if b[0] == 0 {
                        failed_outcome(b, e)
                    } else if b[0] == 2 {
                        e == Error::AuthenticationRequired
                    } else {
                        b[0] != 1 && e == Error::Protocol
                    }),
                }
            }),
    {
        let ghost b = old(r).remaining();
        let status = match read_u8(r) {
            Ok(v) => v,
            Err(_) => {
                return Err(Error::Transport);
            },
        };
        match Status::try_from(status) {
            Some(Status::Success) => Ok(()),
            Some(Status::Failed) => {
                let ghost n = b[1] as int;
                let length = match read_u8(r) {
                    Ok(v) => v,
                    Err(_) => {
                        return Err(Error::Transport);
                    },
                };
                if let Err(_) = skip(r, 6) {
                    return Err(Error::Transport);
                }
                proof {
                    assert(r.remaining() =~= b.skip(8));
                }
                let reason = match read_string(r, length as usize) {
                    Ok(s) => s,
                    Err(CodecError::UnexpectedEnd) => {
                        return Err(Error::Transport);
                    },
                    Err(CodecError::InvalidText) => {
                        proof {
                            assert(b.skip(8).take(n) =~= b.subrange(8, 8 + n));
                        }
                        return Err(Error::Protocol);
                    },
                };
                proof {
                    assert(b.skip(8).take(n) =~= b.subrange(8, 8 + n));
                }
                let p = pad(length as usize);
                if let Err(_) = skip(r, p) {
                    return Err(Error::Transport);
                }
                Err(Error::Failed(reason))
            },
            Some(Status::Authenticate) => Err(Error::AuthenticationRequired),
            None => Err(Error::Protocol),
        }
    }

    /// Decodes the whole handshake answer: the status branch, one reserved
    /// byte, then the capability record. On success the bytes consumed are
    /// exactly one representation of the returned value.
    #[verifier::loop_isolation(false)]
    #[verifier::rlimit(100)]
    #[verifier::spinoff_prover]
    pub fn new(r: &mut Reader) -> (res: Result<Setup, Error>)
        requires
            old(r).wf(),
        ensures
            final(r).wf(),
            final(r).data() == old(r).data(),
            ({
                let b = old(r).remaining();
                match res {
                    Ok(s) => b.len() >= 2 && b[0] == 1 && s.wf() && setup_matches(s@, b.skip(2))
                        && final(r).position() == old(r).position() + 2 + setup_enc_len(s@),
                    Err(e) => (if b.len() < 1 {
                        e == Error::Transport
                    } else if b[0] == 0 {
                        failed_outcome(b, e)
                    } else if b[0] == 2 {
                        e == Error::AuthenticationRequired
                    } else if b[0] != 1 {
                        e == Error::Protocol
                    } else {
                        (e == Error::Transport || e == Error::Protocol) && (b.len() < 2 ==> e
                            == Error::Transport) && (b.len() >= 2 ==> forall|m: SetupModel|
                            !setup_matches(m, b.skip(2)))
                    }),
                }
            }),
    {
        let ghost b = old(r).remaining();
        Self::read_status(r)?;
        if let Err(_) = read_u8(r) {
            return Err(Error::Transport);
        }
        let ghost h = b.skip(2);
        proof {
            assert(r.remaining() =~= h);
        }
        let ghost start = r.position();
        if r.left() < SETUP_HEADER_LEN {
            return Err(Error::Transport);
        }
        let protocol_major_version = read_u16(r).unwrap();
        let protocol_minor_version = read_u16(r).unwrap();
        let length = read_u16(r).unwrap();
        let release_number = read_u32(r).unwrap();
        let resource_id_base = read_u32(r).unwrap();
        let resource_id_mask = read_u32(r).unwrap();
        let motion_buffer_size = read_u32(r).unwrap();
        let vendor_length = read_u16(r).unwrap();
        let maximum_request_length = read_u16(r).unwrap();
        let screen_count = read_u8(r).unwrap();
        let pixmap_format_count = read_u8(r).unwrap();
        let image_byte_order = read_u8(r).unwrap();
        let bitmap_format_bit_order = read_u8(r).unwrap();
        let bitmap_format_scanline_unit = read_u8(r).unwrap();
        let bitmap_format_scanline_pad = read_u8(r).unwrap();
        let min_keycode = read_u8(r).unwrap();
        let max_keycode = read_u8(r).unwrap();
        skip(r, 4).unwrap();
        proof {
            assert(h.take(2) =~= h.subrange(0, 2));
            assert(h.skip(2).take(2) =~= h.subrange(2, 4));
            assert(h.skip(4).take(2) =~= h.subrange(4, 6));
            assert(h.skip(6).take(4) =~= h.subrange(6, 10));
            assert(h.skip(10).take(4) =~= h.subrange(10, 14));
            assert(h.skip(14).take(4) =~= h.subrange(14, 18));
            assert(h.skip(18).take(4) =~= h.subrange(18, 22));
            assert(h.skip(22).take(2) =~= h.subrange(22, 24));
            assert(h.skip(24).take(2) =~= h.subrange(24, 26));
        }
        let ghost vlen = vendor_length as int;
        let ghost voff = SETUP_HEADER_LEN + vlen + spec_pad(vlen);
        proof {
            assert(r.remaining() =~= h.skip(SETUP_HEADER_LEN as int));
        }
        let vendor = match read_string(r, vendor_length as usize) {
            Ok(v) => v,
            Err(e) => {
                proof {
                    assert forall|m: SetupModel| !setup_matches(m, h) by {
                        if setup_matches(m, h) {
                            assert(m.vendor.len() == vendor_length);
                            if e == CodecError::InvalidText {
                                let rb = h.skip(SETUP_HEADER_LEN as int).take(vlen);
                                assert(rb =~= h.subrange(
                                    SETUP_HEADER_LEN as int,
                                    SETUP_HEADER_LEN + vlen,
                                ));
                                assert(!valid_utf8(rb));
                                assert(valid_utf8(m.vendor));
                            }
                        }
                    }
                }
                return match e {
                    CodecError::UnexpectedEnd => Err(Error::Transport),
                    CodecError::InvalidText => Err(Error::Protocol),
                };
            },
        };
        let p = pad(vendor_length as usize);
        if let Err(_) = skip(r, p) {
            proof {
                assert forall|m: SetupModel| !setup_matches(m, h) by {
                    if setup_matches(m, h) {
                        assert(m.vendor.len() == vendor_length);
                        assert(h.len() >= voff);
                    }
                }
            }
            return Err(Error::Transport);
        }
        let ghost f0 = h.skip(voff);
        proof {
            assert(r.position() == start + voff);
            assert(r.remaining() =~= f0);
        }
        let pixmap_formats = match read_formats(r, pixmap_format_count) {
            Ok(v) => v,
            Err(e) => {
                proof {
                    assert forall|m: SetupModel| !setup_matches(m, h) by {
                        if setup_matches(m, h) {
                            assert(m.vendor.len() == vendor_length);
                            assert(m.pixmap_formats.len() == pixmap_format_count);
                            assert(f0.len() >= PIXMAP_FORMAT_ENC_LEN * (
                            pixmap_format_count as int));
                        }
                    }
                }
                return Err(e);
            },
        };
        let ghost sc0 = h.skip(voff + PIXMAP_FORMAT_ENC_LEN * (pixmap_format_count as int));
        proof {
            assert(r.position() == start + voff + PIXMAP_FORMAT_ENC_LEN * (
            pixmap_format_count as int));
        }
        let screens = match read_screens(r, screen_count) {
            Ok(v) => v,
            Err(e) => {
                proof {
                    assert forall|m: SetupModel| !setup_matches(m, h) by {
                        if setup_matches(m, h) {
                            assert(m.vendor.len() == vendor_length);
                            assert(m.screens.len() == screen_count);
                            assert(m.pixmap_formats.len() == pixmap_format_count);
                        }
                    }
                }
                return Err(e);
            },
        };
        let s = Setup {
            protocol_major_version,
            protocol_minor_version,
            length,
            release_number,
            resource_id_base,
            resource_id_mask,
            motion_buffer_size,
            vendor_length,
            maximum_request_length,
            screen_count,
            pixmap_format_count,
            image_byte_order,
            bitmap_format_bit_order,
            bitmap_format_scanline_unit,
            bitmap_format_scanline_pad,
            min_keycode,
            max_keycode,
            vendor,
            pixmap_formats,
            screens,
        };
        proof {
            let rb = h.skip(SETUP_HEADER_LEN as int).take(vlen);
            assert(rb =~= h.subrange(SETUP_HEADER_LEN as int, SETUP_HEADER_LEN + vlen));
            vstd::utf8::decode_utf8_encode_utf8(rb);
            assert(s@.vendor == rb);
            assert(setup_matches(s@, h));
        }
        Ok(s)
    }

    /// The first announced screen, if the server announced any.
    pub fn first_screen(&self) -> (res: Option<&Screen>)
        ensures
            match res {
                Some(sc) => self.screens@.len() > 0 && *sc == self.screens@[0],
                None => self.screens@.len() == 0,
            },
    {
        if self.screens.len() > 0 {
            Some(&self.screens[0])
        } else {
            None
        }
    }

    /// The root window of the first screen, if the server announced any.
    pub fn root(&self) -> (res: Option<u32>)
        ensures
            match res {
                Some(w) => self.screens@.len() > 0 && w == self.screens@[0].root_window,
                None => self.screens@.len() == 0,
            },
    {
        match self.first_screen() {
            Some(sc) => Some(sc.root_window),
            None => None,
        }
    }
}

} // verus!
