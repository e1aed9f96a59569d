use chip8::numtypes::{u12, u4, Nibbles};

#[test]
fn nibblenibble() {
    let x16: u16 = 0xABCD;
    assert_eq!(0xD, x16.nibble_at(0).get());
    assert_eq!(0xC, x16.nibble_at(1).get());
    assert_eq!(0xB, x16.nibble_at(2).get());
    assert_eq!(0xA, x16.nibble_at(3).get());

    let x8: u8 = 0xEF;
    assert_eq!(0xF, x8.nibble_at(0).get());
    assert_eq!(0xE, x8.nibble_at(1).get());
}

#[test]
fn numtypes_nibblenibble() {
    let x16: u16 = 0xABCD;
    assert_eq!(0xD, x16.nibble_at(0).get());
    assert_eq!(0xC, x16.nibble_at(1).get());
    assert_eq!(0xB, x16.nibble_at(2).get());
    assert_eq!(0xA, x16.nibble_at(3).get());

    let x8: u8 = 0xEF;
    assert_eq!(0xF, x8.nibble_at(0).get());
    assert_eq!(0xE, x8.nibble_at(1).get());
}

#[test]
fn nibbles_arrays() {
    let x16: u16 = 0xABCD;
    assert_eq!([0xA, 0xB, 0xC, 0xD], x16.nibbles());
    let x8: u8 = 0xEF;
    assert_eq!([0xE, 0xF], x8.nibbles());
}

#[test]
fn u12_masks_on_construction() {
    assert_eq!(u12::of(0x1FFF).get(), 0xFFF);
    assert_eq!(u12::of(0x0123).get(), 0x123);
    assert_eq!(u12::from_nibbles(0x2, 0x2, 0x8).get(), 0x228);
    assert_eq!(u12::from_nibbles(0xF, 0xF, 0xF).get(), 0xFFF);
}

#[test]
fn u12_masks_on_modify() {
    let mut a = u12::of(0xFFF);
    a.modify(|v| v + 1);
    assert_eq!(a.get(), 0x000);
    a.modify(|v| v + 0x1234);
    assert_eq!(a.get(), 0x234);
}

#[test]
fn u4_masks() {
    assert_eq!(u4::of(0xFF).get(), 0xF);
    assert_eq!(u4::of(0x12).get(), 0x2);
    let mut b = u4::of(0xF);
    b.modify(|v| v + 1);
    assert_eq!(b.get(), 0x0);
}
