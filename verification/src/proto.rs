//! Shared protocol data: response tags, opcodes, event-mask and value-mask
//! bits, and the small closed enumerations that requests carry.

use crate::bytes::{be16_bytes, be32_bytes, write_u16, write_u32};
use vstd::prelude::*;

verus! {

pub type Window = u32;

pub const RESPONSE_ERROR: u8 = 0;

pub const RESPONSE_REPLY: u8 = 1;

pub const EVENT_MASK_KEY_PRESS: u32 = 0x00000001;

pub const EVENT_MASK_KEY_RELEASE: u32 = 0x00000002;

pub const EVENT_MASK_BUTTON_PRESS: u32 = 0x00000004;

pub const EVENT_MASK_BUTTON_RELEASE: u32 = 0x00000008;

pub const EVENT_MASK_ENTER_WINDOW: u32 = 0x00000010;

pub const EVENT_MASK_LEAVE_WINDOW: u32 = 0x00000020;

pub const EVENT_MASK_POINTER_MOTION: u32 = 0x00000040;

pub const EVENT_MASK_POINTER_MOTION_HINT: u32 = 0x00000080;

pub const EVENT_MASK_BUTTON1_MOTION: u32 = 0x00000100;

pub const EVENT_MASK_BUTTON2_MOTION: u32 = 0x00000200;

pub const EVENT_MASK_BUTTON3_MOTION: u32 = 0x00000400;

pub const EVENT_MASK_BUTTON4_MOTION: u32 = 0x00000800;

pub const EVENT_MASK_BUTTON5_MOTION: u32 = 0x00001000;

pub const EVENT_MASK_BUTTON_MOTION: u32 = 0x00002000;

pub const EVENT_MASK_KEYMAP_STATE: u32 = 0x00004000;

pub const EVENT_MASK_EXPOSURE: u32 = 0x00008000;

pub const EVENT_MASK_VISIBILITY_CHANGE: u32 = 0x00010000;

pub const EVENT_MASK_STRUCTURE_NOTIFY: u32 = 0x00020000;

pub const EVENT_MASK_RESIZE_REDIRECT: u32 = 0x00040000;

pub const EVENT_MASK_SUBSTRUCTURE_NOTIFY: u32 = 0x00080000;

pub const EVENT_MASK_SUBSTRUCTURE_REDIRECT: u32 = 0x00100000;

pub const EVENT_MASK_FOCUS_CHANGE: u32 = 0x00200000;

pub const EVENT_MASK_PROPERTY_CHANGE: u32 = 0x00400000;

pub const EVENT_MASK_COLORMAP_CHANGE: u32 = 0x00800000;

pub const EVENT_MASK_OWNER_GRAB_BUTTON: u32 = 0x01000000;

/// Bit indices of the optional window attributes in a value mask, in the
/// protocol's ascending order.
pub const VALUE_BIT_BACKGROUND_PIXMAP: u8 = 0;

pub const VALUE_BIT_BACKGROUND_PIXEL: u8 = 1;

pub const VALUE_BIT_BORDER_PIXMAP: u8 = 2;

pub const VALUE_BIT_BORDER_PIXEL: u8 = 3;

pub const VALUE_BIT_BIT_GRAVITY: u8 = 4;

pub const VALUE_BIT_WIN_GRAVITY: u8 = 5;

pub const VALUE_BIT_BACKING_STORE: u8 = 6;

pub const VALUE_BIT_BACKING_PLANES: u8 = 7;

pub const VALUE_BIT_BACKING_PIXEL: u8 = 8;

pub const VALUE_BIT_OVERRIDE_REDIRECT: u8 = 9;

pub const VALUE_BIT_SAVE_UNDER: u8 = 10;

pub const VALUE_BIT_EVENT_MASK: u8 = 11;

pub const VALUE_BIT_DO_NOT_PROPAGATE_MASK: u8 = 12;

pub const VALUE_BIT_COLORMAP: u8 = 13;

pub const VALUE_BIT_CURSOR: u8 = 14;

pub const VALUE_MASK_BACKGROUND_PIXMAP: u32 = 0x00000001;

pub const VALUE_MASK_BACKGROUND_PIXEL: u32 = 0x00000002;

pub const VALUE_MASK_BORDER_PIXMAP: u32 = 0x00000004;

pub const VALUE_MASK_BORDER_PIXEL: u32 = 0x00000008;

pub const VALUE_MASK_BIT_GRAVITY: u32 = 0x00000010;

pub const VALUE_MASK_WIN_GRAVITY: u32 = 0x00000020;

pub const VALUE_MASK_BACKING_STORE: u32 = 0x00000040;

pub const VALUE_MASK_BACKING_PLANES: u32 = 0x00000080;

pub const VALUE_MASK_BACKING_PIXEL: u32 = 0x00000100;

pub const VALUE_MASK_OVERRIDE_REDIRECT: u32 = 0x00000200;

pub const VALUE_MASK_SAVE_UNDER: u32 = 0x00000400;

pub const VALUE_MASK_EVENT_MASK: u32 = 0x00000800;

pub const VALUE_MASK_DO_NOT_PROPAGATE_MASK: u32 = 0x00001000;

pub const VALUE_MASK_COLORMAP: u32 = 0x00002000;

pub const VALUE_MASK_CURSOR: u32 = 0x00004000;

pub const OPCODE_CREATE_WINDOW: u8 = 1;

pub const OPCODE_CHANGE_WINDOW_ATTRIBUTES: u8 = 2;

pub const OPCODE_GET_WINDOW_ATTRIBUTES: u8 = 3;

pub const OPCODE_MAP_WINDOW: u8 = 8;

pub const OPCODE_QUERY_TREE: u8 = 15;

/// One selectable input-event category; its wire form is a single mask bit.
#[derive(Debug, Clone, Copy, PartialEq, Eq, Structural)]
pub enum EventMask {
    KeyPress,
    KeyRelease,
    ButtonPress,
    ButtonRelease,
    EnterWindow,
    LeaveWindow,
    PointerMotion,
    PointerMotionHint,
    Button1Motion,
    Button2Motion,
    Button3Motion,
    Button4Motion,
    Button5Motion,
    ButtonMotion,
    KeymapState,
    Xposure,
    VisibilityChange,
    StructureNotify,
    ResizeRedirect,
    SubstructureNotify,
    SubstructureRedirect,
    FocusChange,
    PropertyChange,
    ColormapChange,
    OwnerGrabButton,
}

impl EventMask {
    /// The mask bit this category occupies.
    pub open spec fn spec_value(self) -> u32 {
        match self {
            EventMask::KeyPress => 0x00000001,
            EventMask::KeyRelease => 0x00000002,
            EventMask::ButtonPress => 0x00000004,
            EventMask::ButtonRelease => 0x00000008,
            EventMask::EnterWindow => 0x00000010,
            EventMask::LeaveWindow => 0x00000020,
            EventMask::PointerMotion => 0x00000040,
            EventMask::PointerMotionHint => 0x00000080,
            EventMask::Button1Motion => 0x00000100,
            EventMask::Button2Motion => 0x00000200,
            EventMask::Button3Motion => 0x00000400,
            EventMask::Button4Motion => 0x00000800,
            EventMask::Button5Motion => 0x00001000,
            EventMask::ButtonMotion => 0x00002000,
            EventMask::KeymapState => 0x00004000,
            EventMask::Xposure => 0x00008000,
            EventMask::VisibilityChange => 0x00010000,
            EventMask::StructureNotify => 0x00020000,
            EventMask::ResizeRedirect => 0x00040000,
            EventMask::SubstructureNotify => 0x00080000,
            EventMask::SubstructureRedirect => 0x00100000,
            EventMask::FocusChange => 0x00200000,
            EventMask::PropertyChange => 0x00400000,
            EventMask::ColormapChange => 0x00800000,
            EventMask::OwnerGrabButton => 0x01000000,
        }
    }

    pub fn value(self) -> (v: u32)
        ensures
            v == self.spec_value(),
    {
        match self {
            EventMask::KeyPress => 0x00000001,
            EventMask::KeyRelease => 0x00000002,
            EventMask::ButtonPress => 0x00000004,
            EventMask::ButtonRelease => 0x00000008,
            EventMask::EnterWindow => 0x00000010,
            EventMask::LeaveWindow => 0x00000020,
            EventMask::PointerMotion => 0x00000040,
            EventMask::PointerMotionHint => 0x00000080,
            EventMask::Button1Motion => 0x00000100,
            EventMask::Button2Motion => 0x00000200,
            EventMask::Button3Motion => 0x00000400,
            EventMask::Button4Motion => 0x00000800,
            EventMask::Button5Motion => 0x00001000,
            EventMask::ButtonMotion => 0x00002000,
            EventMask::KeymapState => 0x00004000,
            EventMask::Xposure => 0x00008000,
            EventMask::VisibilityChange => 0x00010000,
            EventMask::StructureNotify => 0x00020000,
            EventMask::ResizeRedirect => 0x00040000,
            EventMask::SubstructureNotify => 0x00080000,
            EventMask::SubstructureRedirect => 0x00100000,
            EventMask::FocusChange => 0x00200000,
            EventMask::PropertyChange => 0x00400000,
            EventMask::ColormapChange => 0x00800000,
            EventMask::OwnerGrabButton => 0x01000000,
        }
    }

    /// Appends the mask bit as a 32-bit big-endian word.
    pub fn write(self, w: &mut Vec<u8>)
        ensures
            final(w)@ == old(w)@ + be32_bytes(self.spec_value()),
    {
        let v = self.value();
        write_u32(w, v);
    }
}

/// The class of a window to create.
#[derive(Debug, Clone, Copy, PartialEq, Eq, Structural)]
pub enum Class {
    CopyFromParent,
    InputOutput,
    InputOnly,
}

impl Class {
    /// The 16-bit code of the class on the wire.
    pub open spec fn spec_code(self) -> u16 {
        match self {
            Class::CopyFromParent => 0,
            Class::InputOutput => 1,
            Class::InputOnly => 2,
        }
    }

    /// Appends the class code as a 16-bit big-endian word.
    pub fn write(self, w: &mut Vec<u8>)
        ensures
            final(w)@ == old(w)@ + be16_bytes(self.spec_code()),
    {
        let code: u16 = match self {
            Class::CopyFromParent => 0,
            Class::InputOutput => 1,
            Class::InputOnly => 2,
        };
        write_u16(w, code);
    }
}

/// The visual of a window to create: a concrete id, or the parent's.
#[derive(Debug, Clone, Copy, PartialEq, Eq, Structural)]
pub enum Visual {
    Id(u32),
    CopyFromParent,
}

impl Visual {
    /// The 32-bit code of the visual on the wire; the parent's visual is 0.
    pub open spec fn spec_code(self) -> u32 {
        match self {
            Visual::Id(id) => id,
            Visual::CopyFromParent => 0,
        }
    }

    /// Appends the visual code as a 32-bit big-endian word.
    pub fn write(self, w: &mut Vec<u8>)
        ensures
            final(w)@ == old(w)@ + be32_bytes(self.spec_code()),
    {
        let code: u32 = match self {
            Visual::Id(id) => id,
            Visual::CopyFromParent => 0,
        };
        write_u32(w, code);
    }
}

#[derive(Debug, Clone, Copy, PartialEq, Eq, Structural)]
pub enum StackMode {
    Above,
    Below,
    TopIf,
    BottomIf,
    Opposite,
}

#[derive(Debug, Clone, Copy, PartialEq, Eq, Structural)]
pub enum BackgroundPixmap {
    Pixmap(u32),
    NoPixmap,
    ParentRelative,
}

#[derive(Debug, Clone, Copy, PartialEq, Eq, Structural)]
pub enum BorderPixmap {
    Pixmap(u32),
    CopyFromParent,
}

/// Where a window's contents are anchored when it is resized.
#[derive(Debug, Clone, Copy, PartialEq, Eq, Structural)]
pub enum BitGravity {
    Forget,
    NorthWest,
    North,
    NorthEast,
    West,
    Center,
    East,
    SouthWest,
    South,
    SouthEast,
    Static,
}

impl BitGravity {
    /// The byte code of the gravity on the wire.
    pub open spec fn spec_code(self) -> u8 {
        match self {
            BitGravity::Forget => 0,
            BitGravity::NorthWest => 1,
            BitGravity::North => 2,
            BitGravity::NorthEast => 3,
            BitGravity::West => 4,
            BitGravity::Center => 5,
            BitGravity::East => 6,
            BitGravity::SouthWest => 7,
            BitGravity::South => 8,
            BitGravity::SouthEast => 9,
            BitGravity::Static => 10,
        }
    }

    /// Decodes a byte code; codes above 10 name no gravity.
    pub fn try_from(v: u8) -> (res: Option<BitGravity>)
        ensures
            match res {
                Some(g) => v <= 10 && g.spec_code() == v,
                None => v > 10,
            },
    {
        match v {
            0 => Some(BitGravity::Forget),
            1 => Some(BitGravity::NorthWest),
            2 => Some(BitGravity::North),
            3 => Some(BitGravity::NorthEast),
            4 => Some(BitGravity::West),
            5 => Some(BitGravity::Center),
            6 => Some(BitGravity::East),
            7 => Some(BitGravity::SouthWest),
            8 => Some(BitGravity::South),
            9 => Some(BitGravity::SouthEast),
            10 => Some(BitGravity::Static),
            _ => None,
        }
    }

    pub fn into(self) -> (v: u8)
        ensures
            v == self.spec_code(),
    {
        match self {
            BitGravity::Forget => 0,
            BitGravity::NorthWest => 1,
            BitGravity::North => 2,
            BitGravity::NorthEast => 3,
            BitGravity::West => 4,
            BitGravity::Center => 5,
            BitGravity::East => 6,
            BitGravity::SouthWest => 7,
            BitGravity::South => 8,
            BitGravity::SouthEast => 9,
            BitGravity::Static => 10,
        }
    }
}

/// Where a window itself is anchored when its parent is resized.
#[derive(Debug, Clone, Copy, PartialEq, Eq, Structural)]
pub enum WinGravity {
    Unmap,
    Static,
    NorthWest,
    North,
    NorthEast,
    West,
    Center,
    East,
    SouthWest,
    South,
    SouthEast,
}

impl WinGravity {
    /// The byte code of the gravity on the wire.
    pub open spec fn spec_code(self) -> u8 {
        match self {
            WinGravity::Unmap => 0,
            WinGravity::NorthWest => 1,
            WinGravity::North => 2,
            WinGravity::NorthEast => 3,
            WinGravity::West => 4,
            WinGravity::Center => 5,
            WinGravity::East => 6,
            WinGravity::SouthWest => 7,
            WinGravity::South => 8,
            WinGravity::SouthEast => 9,
            WinGravity::Static => 10,
        }
    }

    /// Decodes a byte code; codes above 10 name no gravity.
    pub fn try_from(v: u8) -> (res: Option<WinGravity>)
        ensures
            match res {
                Some(g) => v <= 10 && g.spec_code() == v,
                None => v > 10,
            },
    {
        match v {
            0 => Some(WinGravity::Unmap),
            1 => Some(WinGravity::NorthWest),
            2 => Some(WinGravity::North),
            3 => Some(WinGravity::NorthEast),
            4 => Some(WinGravity::West),
            5 => Some(WinGravity::Center),
            6 => Some(WinGravity::East),
            7 => Some(WinGravity::SouthWest),
            8 => Some(WinGravity::South),
            9 => Some(WinGravity::SouthEast),
            10 => Some(WinGravity::Static),
            _ => None,
        }
    }

    pub fn into(self) -> (v: u8)
        ensures
            v == self.spec_code(),
    {
        match self {
            WinGravity::Unmap => 0,
            WinGravity::NorthWest => 1,
            WinGravity::North => 2,
            WinGravity::NorthEast => 3,
            WinGravity::West => 4,
            WinGravity::Center => 5,
            WinGravity::East => 6,
            WinGravity::SouthWest => 7,
            WinGravity::South => 8,
            WinGravity::SouthEast => 9,
            WinGravity::Static => 10,
        }
    }
}

#[derive(Debug, Clone, Copy, PartialEq, Eq, Structural)]
pub enum BackingStore {
    NotUseful,
    WhenMapped,
    Always,
}

#[derive(Debug, Clone, Copy, PartialEq, Eq, Structural)]
pub enum Colormap {
    Colormap(u32),
    CopyFromParent,
}

/// One optional window attribute, as a caller names it.
#[derive(Debug, Clone, Copy, PartialEq)]
pub enum WindowAttribute {
    BackgroundPixmap(BackgroundPixmap),
    BackgroundPixel(u32),
    BorderPixmap(BorderPixmap),
    BorderPixel(u32),
    BitGravity(BitGravity),
    WinGravity(WinGravity),
    BackingStore(BackingStore),
    BackingPlanes(u32),
    BackingPixel(u32),
    SaveUnder(bool),
    OverrideRedirect(bool),
    Colormap(Colormap),
    Cursor(Option<u32>),
}

} // verus!
