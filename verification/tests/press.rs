use broken_links::press::{u32_to_u8s, u8s_to_u32};

#[test]
fn can_encode_decode_u32() {
    for i in 0..400 {
        let xs = u32_to_u8s(i);
        let y = u8s_to_u32(&xs);
        assert_eq!(i, y);
    }
}

#[test]
fn sanity_check() {
    let result = 2 + 2;
    assert_eq!(result, 4);
}

#[test]
fn bytes_stand_most_significant_first() {
    assert_eq!(u32_to_u8s(0x0102_0304), vec![1, 2, 3, 4]);
    assert_eq!(u32_to_u8s(0), vec![0, 0, 0, 0]);
    assert_eq!(u32_to_u8s(u32::MAX), vec![255, 255, 255, 255]);
    assert_eq!(u32_to_u8s(256), vec![0, 0, 1, 0]);
}

#[test]
fn number_is_read_from_the_first_four_bytes() {
    assert_eq!(u8s_to_u32(&vec![1, 2, 3, 4]), 0x0102_0304);
    assert_eq!(u8s_to_u32(&vec![0, 0, 1, 0, 9, 9]), 256);
    assert_eq!(u8s_to_u32(&vec![255, 255, 255, 255]), u32::MAX);
    assert_eq!(u8s_to_u32(&vec![0x80, 0, 0, 0]), 0x8000_0000);
}

#[test]
fn round_trip_at_the_edges() {
    for i in [0, 1, 255, 256, 65535, 65536, 0x00ff_ffff, 0x0100_0000, u32::MAX - 1, u32::MAX] {
        assert_eq!(u8s_to_u32(&u32_to_u8s(i)), i);
    }
}
