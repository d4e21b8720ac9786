use x11::proto::{BitGravity, Class, EventMask, Visual, WinGravity};
use x11::request::{
    ChangeWindowAttributes, CreateWindow, GetWindowAttributes, MapWindow, QueryTree,
};

#[test]
fn map_window_serializes_to_the_protocol_bytes() {
    let mut w: Vec<u8> = Vec::new();
    MapWindow::new(0x0020_0001).write(&mut w);
    assert_eq!(w, vec![0x08, 0x00, 0x00, 0x02, 0x00, 0x20, 0x00, 0x01]);
}

#[test]
fn get_window_attributes_bytes() {
    let mut w: Vec<u8> = Vec::new();
    GetWindowAttributes::new(0x1234_5678).write(&mut w);
    assert_eq!(w, vec![0x03, 0x00, 0x00, 0x02, 0x12, 0x34, 0x56, 0x78]);
}

#[test]
fn query_tree_bytes() {
    let mut w: Vec<u8> = Vec::new();
    QueryTree::new(0x0000_0123).write(&mut w);
    assert_eq!(w, vec![0x0f, 0x00, 0x00, 0x02, 0x00, 0x00, 0x01, 0x23]);
}

#[test]
fn create_window_without_attributes() {
    let mut w: Vec<u8> = Vec::new();
    CreateWindow::new(
        0,
        0x0020_0001,
        0x123,
        100,
        50,
        500,
        250,
        5,
        Class::CopyFromParent,
        Visual::CopyFromParent,
    )
    .write(&mut w);
    assert_eq!(w.len(), 32);
    assert_eq!(w[0], 1); // opcode
    assert_eq!(w[1], 0); // depth
    assert_eq!(&w[2..4], &[0, 8]); // length: 8 words, no values
    assert_eq!(&w[4..8], &[0x00, 0x20, 0x00, 0x01]); // window
    assert_eq!(&w[8..12], &[0x00, 0x00, 0x01, 0x23]); // parent
    assert_eq!(&w[12..14], &[0, 100]); // x
    assert_eq!(&w[14..16], &[0, 50]); // y
    assert_eq!(&w[16..18], &[1, 244]); // width
    assert_eq!(&w[18..20], &[0, 250]); // height
    assert_eq!(&w[20..22], &[0, 5]); // border width
    assert_eq!(&w[22..24], &[0, 0]); // class
    assert_eq!(&w[24..28], &[0, 0, 0, 0]); // visual
    assert_eq!(&w[28..32], &[0, 0, 0, 0]); // value mask
}

#[test]
fn create_window_orders_values_by_bit_index() {
    let mut a = CreateWindow::new(
        24,
        7,
        1,
        0,
        0,
        10,
        10,
        0,
        Class::InputOutput,
        Visual::Id(0x41),
    );
    a.background_pixel(0x00ff_00ff);
    a.event_mask(0x0002_2000);
    let mut wa: Vec<u8> = Vec::new();
    a.write(&mut wa);

    let mut b = CreateWindow::new(
        24,
        7,
        1,
        0,
        0,
        10,
        10,
        0,
        Class::InputOutput,
        Visual::Id(0x41),
    );
    b.event_mask(0x0002_2000);
    b.background_pixel(0x00ff_00ff);
    let mut wb: Vec<u8> = Vec::new();
    b.write(&mut wb);

    // either configuration order serializes identically
    assert_eq!(wa, wb);
    assert_eq!(wa.len(), 40);
    assert_eq!(&wa[2..4], &[0, 10]); // 8 words plus two values
    assert_eq!(&wa[28..32], &[0x00, 0x00, 0x08, 0x02]); // mask: bits 1 and 11
    // the background pixel (bit 1) comes before the event mask (bit 11)
    assert_eq!(&wa[32..36], &[0x00, 0xff, 0x00, 0xff]);
    assert_eq!(&wa[36..40], &[0x00, 0x02, 0x20, 0x00]);
}

#[test]
fn change_window_attributes_orders_values_by_bit_index() {
    let mut a = ChangeWindowAttributes::new(0x123);
    a.event_mask(0xcccc);
    a.background_pixel(0x1111);
    let mut wa: Vec<u8> = Vec::new();
    a.write(&mut wa);
    assert_eq!(wa.len(), 20);
    assert_eq!(wa[0], 2); // opcode
    assert_eq!(&wa[2..4], &[0, 5]); // 3 words plus two values
    assert_eq!(&wa[4..8], &[0x00, 0x00, 0x01, 0x23]); // window
    assert_eq!(&wa[8..12], &[0x00, 0x00, 0x08, 0x02]); // mask: bits 1 and 11
    assert_eq!(&wa[12..16], &[0x00, 0x00, 0x11, 0x11]); // background pixel first
    assert_eq!(&wa[16..20], &[0x00, 0x00, 0xcc, 0xcc]); // event mask second
}

#[test]
fn repeated_configuration_replaces_the_value() {
    let mut a = ChangeWindowAttributes::new(1);
    a.event_mask(0x1);
    a.event_mask(0x2);
    let mut w: Vec<u8> = Vec::new();
    a.write(&mut w);
    assert_eq!(&w[2..4], &[0, 4]); // still a single value
    assert_eq!(&w[12..16], &[0, 0, 0, 2]);
}

#[test]
fn gravity_codes_round_trip() {
    assert_eq!(BitGravity::try_from(0), Some(BitGravity::Forget));
    assert_eq!(BitGravity::try_from(10), Some(BitGravity::Static));
    assert_eq!(BitGravity::try_from(11), None);
    assert_eq!(BitGravity::NorthWest.into(), 1);
    assert_eq!(WinGravity::try_from(0), Some(WinGravity::Unmap));
    assert_eq!(WinGravity::try_from(10), Some(WinGravity::Static));
    assert_eq!(WinGravity::try_from(200), None);
    assert_eq!(WinGravity::SouthEast.into(), 9);
    for code in 0u8..=10 {
        assert_eq!(BitGravity::try_from(code).unwrap().into(), code);
        assert_eq!(WinGravity::try_from(code).unwrap().into(), code);
    }
}

#[test]
fn class_and_visual_and_event_mask_bytes() {
    let mut w: Vec<u8> = Vec::new();
    Class::InputOnly.write(&mut w);
    Visual::Id(0xaabbccdd).write(&mut w);
    EventMask::SubstructureRedirect.write(&mut w);
    assert_eq!(w, vec![0, 2, 0xaa, 0xbb, 0xcc, 0xdd, 0x00, 0x10, 0x00, 0x00]);
    assert_eq!(EventMask::KeyPress.value(), 1);
    assert_eq!(EventMask::OwnerGrabButton.value(), 0x0100_0000);
}
