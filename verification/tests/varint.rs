use sqlite_reader::varint::Varint;

#[test]
fn test_decoding() {
    let ar = [134_u8, 195_u8, 23_u8];
    assert_eq!(Varint(106903), Varint::read(&ar, 0).unwrap());
    let ar = [0];
    assert_eq!(Varint(0), Varint::read(&ar, 0).unwrap());
    let ar = [0x81, 0x00];
    assert_eq!(Varint(128), Varint::read(&ar, 0).unwrap());
    let ar = [0xc0, 0x00];
    assert_eq!(Varint(8192), Varint::read(&ar, 0).unwrap());
    let ar = [0xff, 0x7f];
    assert_eq!(Varint(16383), Varint::read(&ar, 0).unwrap());
    let ar = [0xff, 0xff, 0xff, 0x7f];
    assert_eq!(Varint(268435455), Varint::read(&ar, 0).unwrap());
}

#[test]
fn test_round_trip_concrete() {
    for v in [
        0i64,
        1,
        127,
        128,
        8192,
        16383,
        106903,
        268435455,
        i64::MAX,
        -1,
        i64::MIN,
        -123456789,
    ] {
        let enc = Varint::encode(v);
        assert!(enc.len() >= 1 && enc.len() <= 9);
        let (dec, n) = Varint::read_sized(enc.as_slice(), 0).unwrap();
        assert_eq!(dec.0, v);
        assert_eq!(n, enc.len());
    }
}

#[test]
fn test_truncated_varint() {
    let ar = [0xff, 0xff];
    assert!(Varint::read(&ar, 0).is_err());
    let empty: [u8; 0] = [];
    assert!(Varint::read(&empty, 0).is_err());
}
