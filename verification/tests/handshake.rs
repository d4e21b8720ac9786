use x11::bytes::Reader;
use x11::setup::{BackingStores, Error, Setup, VisualTypeClass};

fn push_u16(v: &mut Vec<u8>, x: u16) {
    v.extend_from_slice(&x.to_be_bytes());
}

fn push_u32(v: &mut Vec<u8>, x: u32) {
    v.extend_from_slice(&x.to_be_bytes());
}

/// A syntactically valid success response: vendor "Acme", one pixmap format,
/// one screen with one depth holding one visual type.
fn success_response() -> Vec<u8> {
    let mut b: Vec<u8> = Vec::new();
    b.push(1); // status: success
    b.push(0); // reserved
    push_u16(&mut b, 11); // protocol major
    push_u16(&mut b, 0); // protocol minor
    push_u16(&mut b, 29); // additional length in words
    push_u32(&mut b, 0x0102_0304); // release number
    push_u32(&mut b, 0x0020_0000); // resource id base
    push_u32(&mut b, 0x001f_ffff); // resource id mask
    push_u32(&mut b, 256); // motion buffer size
    push_u16(&mut b, 4); // vendor length
    push_u16(&mut b, 65535); // maximum request length
    b.push(1); // screen count
    b.push(1); // pixmap format count
    b.push(0); // image byte order
    b.push(1); // bitmap format bit order
    b.push(32); // bitmap format scanline unit
    b.push(32); // bitmap format scanline pad
    b.push(8); // min keycode
    b.push(255); // max keycode
    b.extend_from_slice(&[0; 4]); // reserved
    b.extend_from_slice(b"Acme"); // vendor, length 4, no padding needed
    // one pixmap format
    b.push(24);
    b.push(32);
    b.push(32);
    b.extend_from_slice(&[0; 5]);
    // one screen
    push_u32(&mut b, 0x0000_0123); // root window
    push_u32(&mut b, 0x0000_0022); // default colormap
    push_u32(&mut b, 0x00ff_ffff); // white pixel
    push_u32(&mut b, 0x0000_0000); // black pixel
    push_u32(&mut b, 0x001a_0000); // current input masks
    push_u16(&mut b, 1920); // width in pixels
    push_u16(&mut b, 1080); // height in pixels
    push_u16(&mut b, 509); // width in millimeters
    push_u16(&mut b, 286); // height in millimeters
    push_u16(&mut b, 1); // min installed maps
    push_u16(&mut b, 1); // max installed maps
    push_u32(&mut b, 0x0000_0041); // root visual
    b.push(1); // backing stores: when mapped
    b.push(0); // save unders
    b.push(24); // root depth
    b.push(1); // allowed depth count
    // one depth
    b.push(24);
    b.push(0);
    push_u16(&mut b, 1); // visual type count
    b.extend_from_slice(&[0; 4]);
    // one visual type
    push_u32(&mut b, 0x0000_0041); // visual id
    b.push(4); // class: true color
    b.push(8); // bits per rgb value
    push_u16(&mut b, 256); // colormap entries
    push_u32(&mut b, 0x00ff_0000); // red mask
    push_u32(&mut b, 0x0000_ff00); // green mask
    push_u32(&mut b, 0x0000_00ff); // blue mask
    b.extend_from_slice(&[0; 4]);
    b
}

#[test]
fn setup_round_trip() {
    let mut bytes = success_response();
    // trailing bytes must be left untouched
    bytes.extend_from_slice(&[0xaa, 0xbb, 0xcc]);
    let mut r = Reader::new(bytes);
    let s = Setup::new(&mut r).unwrap();
    assert_eq!(r.left(), 3, "decoding must consume exactly the declared bytes");
    assert_eq!(s.protocol_major_version, 11);
    assert_eq!(s.protocol_minor_version, 0);
    assert_eq!(s.length, 29);
    assert_eq!(s.release_number, 0x0102_0304);
    assert_eq!(s.resource_id_base, 0x0020_0000);
    assert_eq!(s.resource_id_mask, 0x001f_ffff);
    assert_eq!(s.motion_buffer_size, 256);
    assert_eq!(s.vendor_length, 4);
    assert_eq!(s.maximum_request_length, 65535);
    assert_eq!(s.screen_count, 1);
    assert_eq!(s.pixmap_format_count, 1);
    assert_eq!(s.image_byte_order, 0);
    assert_eq!(s.bitmap_format_bit_order, 1);
    assert_eq!(s.bitmap_format_scanline_unit, 32);
    assert_eq!(s.bitmap_format_scanline_pad, 32);
    assert_eq!(s.min_keycode, 8);
    assert_eq!(s.max_keycode, 255);
    assert_eq!(s.vendor, "Acme");
    assert_eq!(s.pixmap_formats.len(), 1);
    assert_eq!(s.pixmap_formats[0].depth, 24);
    assert_eq!(s.pixmap_formats[0].bits_per_pixel, 32);
    assert_eq!(s.pixmap_formats[0].scanline_pad, 32);
    assert_eq!(s.screens.len(), 1);
    let sc = &s.screens[0];
    assert_eq!(sc.root_window, 0x123);
    assert_eq!(sc.colormap, 0x22);
    assert_eq!(sc.white_pixel, 0x00ff_ffff);
    assert_eq!(sc.black_pixel, 0);
    assert_eq!(sc.current_input_masks, 0x001a_0000);
    assert_eq!(sc.width_in_pixels, 1920);
    assert_eq!(sc.height_in_pixels, 1080);
    assert_eq!(sc.width_in_millimeters, 509);
    assert_eq!(sc.height_in_millimeters, 286);
    assert_eq!(sc.min_installed_maps, 1);
    assert_eq!(sc.max_installed_maps, 1);
    assert_eq!(sc.root_visual, 0x41);
    assert_eq!(sc.backing_stores, BackingStores::WhenMapped);
    assert_eq!(sc.save_unders, 0);
    assert_eq!(sc.root_depth, 24);
    assert_eq!(sc.allowed_depth_count, 1);
    assert_eq!(sc.depths.len(), 1);
    let d = &sc.depths[0];
    assert_eq!(d.depth, 24);
    assert_eq!(d.visual_type_count, 1);
    assert_eq!(d.visual_types.len(), 1);
    let v = &d.visual_types[0];
    assert_eq!(v.visual_id, 0x41);
    assert_eq!(v.class, VisualTypeClass::TrueColor);
    assert_eq!(v.bits_per_rgb_value, 8);
    assert_eq!(v.colormap_entries, 256);
    assert_eq!(v.red_mask, 0x00ff_0000);
    assert_eq!(v.green_mask, 0x0000_ff00);
    assert_eq!(v.blue_mask, 0x0000_00ff);
    // the decoded first screen and root are the announced ones
    assert_eq!(s.root(), Some(0x123));
    assert!(s.first_screen().is_some());
}

#[test]
fn refused_handshake_carries_the_reason() {
    let mut bytes: Vec<u8> = vec![0, 8];
    bytes.extend_from_slice(&[0; 6]);
    bytes.extend_from_slice(b"bad auth");
    let mut r = Reader::new(bytes);
    assert_eq!(Setup::read_status(&mut r), Err(Error::Failed(String::from("bad auth"))));
}

#[test]
fn authentication_demand_surfaces() {
    let mut r = Reader::new(vec![2]);
    assert_eq!(Setup::read_status(&mut r), Err(Error::AuthenticationRequired));
}

#[test]
fn meaningless_status_byte_is_a_protocol_error() {
    let mut r = Reader::new(vec![7]);
    assert_eq!(Setup::read_status(&mut r), Err(Error::Protocol));
}

#[test]
fn empty_response_is_a_transport_error() {
    let mut r = Reader::new(Vec::new());
    assert_eq!(Setup::read_status(&mut r), Err(Error::Transport));
}

#[test]
fn truncated_reason_is_a_transport_error() {
    let mut bytes: Vec<u8> = vec![0, 8];
    bytes.extend_from_slice(&[0; 6]);
    bytes.extend_from_slice(b"bad");
    let mut r = Reader::new(bytes);
    assert_eq!(Setup::read_status(&mut r), Err(Error::Transport));
}

#[test]
fn truncated_setup_is_a_transport_error() {
    let mut bytes = success_response();
    bytes.truncate(60);
    let mut r = Reader::new(bytes);
    assert_eq!(Setup::new(&mut r), Err(Error::Transport));
}

#[test]
fn bad_visual_class_is_a_protocol_error() {
    let mut bytes = success_response();
    let n = bytes.len();
    bytes[n - 20] = 6; // the visual class byte; codes end at 5
    let mut r = Reader::new(bytes);
    assert_eq!(Setup::new(&mut r), Err(Error::Protocol));
}

#[test]
fn prologue_bytes() {
    let mut w: Vec<u8> = Vec::new();
    Setup::write(&mut w);
    assert_eq!(w, vec![0x42, 0, 0, 11, 0, 0, 0, 0, 0, 0, 0, 0]);
}

#[test]
fn minimal_setup_with_nothing_announced() {
    let mut b: Vec<u8> = vec![1, 0];
    push_u16(&mut b, 11);
    push_u16(&mut b, 0);
    push_u16(&mut b, 8); // declared additional length
    push_u32(&mut b, 1);
    push_u32(&mut b, 0x0040_0000);
    push_u32(&mut b, 0x003f_ffff);
    push_u32(&mut b, 0);
    push_u16(&mut b, 0); // empty vendor
    push_u16(&mut b, 16);
    b.push(0); // no screens
    b.push(0); // no pixmap formats
    b.extend_from_slice(&[0, 0, 32, 32, 8, 255]);
    b.extend_from_slice(&[0; 4]);
    let mut r = Reader::new(b);
    let s = Setup::new(&mut r).unwrap();
    assert_eq!(r.left(), 0);
    assert_eq!(s.vendor, "");
    assert_eq!(s.pixmap_formats.len(), 0);
    assert_eq!(s.screens.len(), 0);
    assert_eq!(s.first_screen(), None);
    assert_eq!(s.root(), None);
}

#[test]
fn refused_handshake_with_padded_reason() {
    // a 5-byte reason needs 3 bytes of padding
    let mut bytes: Vec<u8> = vec![0, 5];
    bytes.extend_from_slice(&[0; 6]);
    bytes.extend_from_slice(b"sorry");
    bytes.extend_from_slice(&[0; 3]);
    let mut r = Reader::new(bytes);
    assert_eq!(Setup::read_status(&mut r), Err(Error::Failed(String::from("sorry"))));
    assert_eq!(r.left(), 0);
}

#[test]
fn refused_handshake_reason_may_hold_multibyte_utf8() {
    // a two-byte character inside the reason: valid UTF-8 decodes
    let mut bytes: Vec<u8> = vec![0, 6];
    bytes.extend_from_slice(&[0; 6]);
    bytes.extend_from_slice(&[0x64, 0x65, 0x6e, 0x69, 0xc3, 0xa9]);
    bytes.extend_from_slice(&[0; 2]); // padding to 4
    let mut r = Reader::new(bytes);
    let expected = String::from_utf8(vec![0x64, 0x65, 0x6e, 0x69, 0xc3, 0xa9]).unwrap();
    assert_eq!(Setup::read_status(&mut r), Err(Error::Failed(expected)));
    assert_eq!(r.left(), 0);
}

#[test]
fn refused_handshake_rejects_invalid_utf8_reason() {
    let mut bytes: Vec<u8> = vec![0, 2];
    bytes.extend_from_slice(&[0; 6]);
    bytes.extend_from_slice(&[0xc3, 0x28]); // no valid continuation byte
    bytes.extend_from_slice(&[0; 2]);
    let mut r = Reader::new(bytes);
    assert_eq!(Setup::read_status(&mut r), Err(Error::Protocol));
}

#[test]
fn vendor_string_may_hold_multibyte_utf8() {
    let mut b = success_response();
    // the vendor length counts bytes: two bytes, one character, two pad bytes
    b[24..26].copy_from_slice(&2u16.to_be_bytes());
    b[40] = 0xc3;
    b[41] = 0xa9;
    b[42] = 0;
    b[43] = 0;
    let mut r = Reader::new(b);
    let s = Setup::new(&mut r).unwrap();
    assert_eq!(r.left(), 0);
    assert_eq!(s.vendor, String::from_utf8(vec![0xc3, 0xa9]).unwrap());
    assert_eq!(s.vendor_length, 2);
    assert_eq!(s.screens.len(), 1);
}

#[test]
fn invalid_utf8_vendor_is_a_protocol_error() {
    let mut b = success_response();
    b[40] = 0xc3;
    b[41] = 0x28; // not a continuation byte
    let mut r = Reader::new(b);
    assert_eq!(Setup::new(&mut r), Err(Error::Protocol));
}
