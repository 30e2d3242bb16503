use efivar::guid::{EfiGuid, EfiGuidError};
use std::convert::TryFrom;

#[test]
fn from_u8_array() {
    let array: [u8; 16] = [
        0x12, 0x34, 0x56, 0x78, 0x9a, 0xbc, 0xde, 0xf0, 0x01, 0x23, 0x45, 0x67, 0x89, 0xab, 0xcd,
        0xef,
    ];
    assert_eq!(
        EfiGuid {
            a: 0x78563412,
            b: 0xbc9a,
            c: 0xf0de,
            d: [0x01, 0x23, 0x45, 0x67, 0x89, 0xab, 0xcd, 0xef]
        },
        EfiGuid::from(&array)
    )
}

#[test]
fn from_i8_array() {
    let array: [i8; 16] = [
        0x12, 0x34, 0x56, 0x78, -0x66, -0x44, -0x22, -0x10, 0x01, 0x23, 0x45, 0x67, -0x77, -0x55,
        -0x33, -0x11,
    ];
    assert_eq!(
        EfiGuid {
            a: 0x78563412,
            b: 0xbc9a,
            c: 0xf0de,
            d: [0x01, 0x23, 0x45, 0x67, 0x89, 0xab, 0xcd, 0xef]
        },
        EfiGuid::from(&array)
    )
}

#[test]
fn from_u8_slice() {
    let array: &[u8] = &[
        0x12, 0x34, 0x56, 0x78, 0x9a, 0xbc, 0xde, 0xf0, 0x01, 0x23, 0x45, 0x67, 0x89, 0xab, 0xcd,
        0xef,
    ];
    assert_eq!(
        EfiGuid {
            a: 0x78563412,
            b: 0xbc9a,
            c: 0xf0de,
            d: [0x01, 0x23, 0x45, 0x67, 0x89, 0xab, 0xcd, 0xef]
        },
        EfiGuid::try_from(array).unwrap()
    )
}

#[test]
fn from_i8_slice() {
    let array: &[i8] = &[
        0x12, 0x34, 0x56, 0x78, -0x66, -0x44, -0x22, -0x10, 0x01, 0x23, 0x45, 0x67, -0x77, -0x55,
        -0x33, -0x11,
    ];
    assert_eq!(
        EfiGuid {
            a: 0x78563412,
            b: 0xbc9a,
            c: 0xf0de,
            d: [0x01, 0x23, 0x45, 0x67, 0x89, 0xab, 0xcd, 0xef]
        },
        EfiGuid::try_from(array).unwrap()
    )
}

#[test]
fn from_u8_vec() {
    let array: Vec<u8> = Vec::from([
        0x12, 0x34, 0x56, 0x78, 0x9a, 0xbc, 0xde, 0xf0, 0x01, 0x23, 0x45, 0x67, 0x89, 0xab, 0xcd,
        0xef,
    ]);
    assert_eq!(
        EfiGuid {
            a: 0x78563412,
            b: 0xbc9a,
            c: 0xf0de,
            d: [0x01, 0x23, 0x45, 0x67, 0x89, 0xab, 0xcd, 0xef]
        },
        EfiGuid::try_from(array).unwrap()
    )
}

#[test]
fn from_i8_vec() {
    let array: Vec<i8> = Vec::from([
        0x12, 0x34, 0x56, 0x78, -0x66, -0x44, -0x22, -0x10, 0x01, 0x23, 0x45, 0x67, -0x77, -0x55,
        -0x33, -0x11,
    ]);
    assert_eq!(
        EfiGuid {
            a: 0x78563412,
            b: 0xbc9a,
            c: 0xf0de,
            d: [0x01, 0x23, 0x45, 0x67, 0x89, 0xab, 0xcd, 0xef]
        },
        EfiGuid::try_from(array).unwrap()
    )
}

#[test]
fn from_str() {
    let guid = "12345678-9abc-def0-1234-56789abcdef0";
    assert_eq!(
        EfiGuid {
            a: 0x12345678,
            b: 0x9abc,
            c: 0xdef0,
            d: [0x12, 0x34, 0x56, 0x78, 0x9a, 0xbc, 0xde, 0xf0]
        },
        guid.parse::<EfiGuid>().unwrap()
    );
}

#[test]
fn format() {
    assert_eq!(
        "12345678-9abc-def0-1234-56789abcdef0",
        EfiGuid {
            a: 0x12345678,
            b: 0x9abc,
            c: 0xdef0,
            d: [0x12, 0x34, 0x56, 0x78, 0x9a, 0xbc, 0xde, 0xf0]
        }
        .to_string()
    );
}

#[test]
fn format_pads_with_zeros() {
    let g = EfiGuid { a: 0x1, b: 0x2, c: 0x3, d: [0, 4, 0, 0, 0, 0, 0, 5] };
    assert_eq!("00000001-0002-0003-0004-000000000005", g.to_string());
}

#[test]
fn parse_accepts_upper_case() {
    let g = EfiGuid::parse("8BE4DF61-93CA-11D2-AA0D-00E098032B8C").unwrap();
    assert_eq!("8be4df61-93ca-11d2-aa0d-00e098032b8c", g.to_string());
}

#[test]
fn parse_rejects_bad_text() {
    assert_eq!(Err(EfiGuidError::BadFormat), EfiGuid::parse("8be4df61-93ca-11d2-aa0d-00e098032b8"));
    assert_eq!(Err(EfiGuidError::BadFormat), EfiGuid::parse("8be4df61x93ca-11d2-aa0d-00e098032b8c"));
    assert_eq!(Err(EfiGuidError::BadFormat), EfiGuid::parse("8be4df61-93ca-11d2-aa0d-00e098032b8g"));
    assert_eq!(Err(EfiGuidError::BadFormat), EfiGuid::parse(""));
}

#[test]
fn binary_lengths_are_checked() {
    let short: &[u8] = &[0u8; 15];
    let long: &[u8] = &[0u8; 17];
    assert_eq!(Err(EfiGuidError::SliceLengthTooShort), EfiGuid::try_from(short));
    assert_eq!(Err(EfiGuidError::SliceLengthTooLong), EfiGuid::try_from(long));
    assert_eq!(Err(EfiGuidError::VecLengthTooShort), EfiGuid::try_from(vec![0u8; 15]));
    assert_eq!(Err(EfiGuidError::VecLengthTooLong), EfiGuid::try_from(vec![0u8; 17]));
    assert_eq!(Err(EfiGuidError::VecLengthTooShort), EfiGuid::try_from(vec![0i8; 3]));
}

#[test]
fn binary_text_round_trip() {
    let bytes: [u8; 16] = [
        0x61, 0xdf, 0xe4, 0x8b, 0xca, 0x93, 0xd2, 0x11, 0xaa, 0x0d, 0x00, 0xe0, 0x98, 0x03, 0x2b,
        0x8c,
    ];
    let g = EfiGuid::from_bytes(&bytes);
    let text = g.to_string();
    assert_eq!("8be4df61-93ca-11d2-aa0d-00e098032b8c", text);
    assert_eq!(g, EfiGuid::parse(&text).unwrap());
}

#[test]
fn guid_order_zero_before_ones() {
    let zero = EfiGuid::parse("00000000-0000-0000-0000-000000000000").unwrap();
    let ones = EfiGuid::parse("ffffffff-ffff-ffff-ffff-ffffffffffff").unwrap();
    assert!(zero < ones);
    assert_eq!(std::cmp::Ordering::Less, zero.compare(&ones));
    assert_eq!(std::cmp::Ordering::Greater, ones.compare(&zero));
    assert_eq!(std::cmp::Ordering::Equal, ones.compare(&ones));
}

#[test]
fn guid_order_compares_tail_from_last_byte() {
    let x = EfiGuid { a: 1, b: 1, c: 1, d: [9, 0, 0, 0, 0, 0, 0, 1] };
    let y = EfiGuid { a: 1, b: 1, c: 1, d: [0, 0, 0, 0, 0, 0, 0, 2] };
    assert!(x < y);
    let p = EfiGuid { a: 1, b: 1, c: 1, d: [1, 0, 0, 0, 0, 0, 0, 0] };
    let q = EfiGuid { a: 1, b: 1, c: 1, d: [2, 0, 0, 0, 0, 0, 0, 0] };
    assert!(p < q);
    let big_a = EfiGuid { a: 2, b: 0, c: 0, d: [0; 8] };
    let big_b = EfiGuid { a: 1, b: 9, c: 9, d: [9; 8] };
    assert!(big_b < big_a);
}

#[test]
fn guid_error_messages() {
    assert_eq!(
        "bad format. Correct format is xxxxxxxx-xxxx-xxxx-xxxx-xxxxxxxxxxxx",
        EfiGuidError::BadFormat.message()
    );
    assert_eq!(
        "source vector too short. Vector must have a size of 16",
        EfiGuidError::VecLengthTooShort.message()
    );
}
