use blitz::address::{Ipv4Addr, Ipv6Addr, MacAddr};
use blitz::bytes::{read_be16, write_be16};
use blitz::text::{append_decimal, digit_char};

#[test]
fn mac_constants() {
    assert_eq!(MacAddr::broadcast(), MacAddr(0xff, 0xff, 0xff, 0xff, 0xff, 0xff));
    assert_eq!(MacAddr::zero(), MacAddr(0, 0, 0, 0, 0, 0));
    assert!(MacAddr::broadcast().is_broadcast());
    assert!(!MacAddr::new(0xff, 0xff, 0xff, 0xff, 0xff, 0xfe).is_broadcast());
    assert!(!MacAddr::zero().is_broadcast());
}

#[test]
fn addresses_are_read_and_written_in_order() {
    let bytes: Vec<u8> = (1..=20).collect();
    assert_eq!(MacAddr::read(&bytes, 2), MacAddr(3, 4, 5, 6, 7, 8));
    assert_eq!(Ipv4Addr::read(&bytes, 16), Ipv4Addr(17, 18, 19, 20));
    assert_eq!(
        Ipv6Addr::read(&bytes, 4),
        Ipv6Addr(0x0506, 0x0708, 0x090a, 0x0b0c, 0x0d0e, 0x0f10, 0x1112, 0x1314)
    );
    let mut out = vec![9u8];
    MacAddr(1, 2, 3, 4, 5, 6).write(&mut out);
    Ipv4Addr(7, 8, 9, 10).write(&mut out);
    assert_eq!(out, vec![9, 1, 2, 3, 4, 5, 6, 7, 8, 9, 10]);
}

#[test]
fn ipv4_number_is_big_endian() {
    assert_eq!(Ipv4Addr::new(192, 0, 2, 5).to_bits(), 0xC000_0205);
    assert_eq!(Ipv4Addr::new(0, 0, 0, 0).to_bits(), 0);
    assert_eq!(Ipv4Addr::new(255, 255, 255, 255).to_bits(), u32::MAX);
    assert_eq!(Ipv4Addr::from_bits(0xC000_0205), Ipv4Addr::new(192, 0, 2, 5));
    assert_eq!(Ipv4Addr::from_bits(1), Ipv4Addr::new(0, 0, 0, 1));
    assert_eq!(Ipv4Addr::from_bits(0x0100_0000), Ipv4Addr::new(1, 0, 0, 0));
    for bits in [0u32, 1, 255, 256, 65_535, 65_536, 0x7fff_ffff, 0x8000_0000, u32::MAX] {
        assert_eq!(Ipv4Addr::from_bits(bits).to_bits(), bits);
    }
}

#[test]
fn sixteen_bit_numbers_are_big_endian() {
    assert_eq!(read_be16(&[0x12, 0x34, 0x56], 0), 0x1234);
    assert_eq!(read_be16(&[0x12, 0x34, 0x56], 1), 0x3456);
    assert_eq!(read_be16(&[0xff, 0xff], 0), 0xffff);
    let mut out = Vec::new();
    write_be16(0x0806, &mut out);
    write_be16(0xffff, &mut out);
    write_be16(0, &mut out);
    assert_eq!(out, vec![0x08, 0x06, 0xff, 0xff, 0, 0]);
}

#[test]
fn decimal_digits() {
    assert_eq!(digit_char(0), '0');
    assert_eq!(digit_char(9), '9');
    let mut text = String::from("x");
    append_decimal(&mut text, 2025, 4);
    append_decimal(&mut text, 7, 2);
    append_decimal(&mut text, 123, 2);
    append_decimal(&mut text, 5, 0);
    assert_eq!(text, "x20250723");
}
