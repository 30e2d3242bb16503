use efivar::attributes::{parse_attributes, EfiVariableAttribute, EfivarAttribute};

#[test]
fn to_uint128() {
    (0..31).for_each(|i| {
        let attr = EfiVariableAttribute::new("Test attribute", 1 << i);
        assert_eq!(1u128 << i, u128::from(attr));

        let attr = EfiVariableAttribute::new("Test attribute", 1 << i);
        assert_eq!(1u128 << i, u128::from(&attr));
    })
}

#[test]
fn to_int128() {
    (0..31).for_each(|i| {
        let attr = EfiVariableAttribute::new("Test attribute", 1 << i);
        assert_eq!(1i128 << i, i128::from(attr));

        let attr = EfiVariableAttribute::new("Test attribute", 1 << i);
        assert_eq!(1i128 << i, i128::from(&attr));
    })
}

#[test]
fn to_uint64() {
    (0..31).for_each(|i| {
        let attr = EfiVariableAttribute::new("Test attribute", 1 << i);
        assert_eq!(1u64 << i, u64::from(attr));

        let attr = EfiVariableAttribute::new("Test attribute", 1 << i);
        assert_eq!(1u64 << i, u64::from(&attr));
    })
}

#[test]
fn to_int64() {
    (0..31).for_each(|i| {
        let attr = EfiVariableAttribute::new("Test attribute", 1 << i);
        assert_eq!(1i64 << i, i64::from(attr));

        let attr = EfiVariableAttribute::new("Test attribute", 1 << i);
        assert_eq!(1i64 << i, i64::from(&attr));
    })
}

#[test]
fn to_uint32() {
    (0..31).for_each(|i| {
        let attr = EfiVariableAttribute::new("Test attribute", 1 << i);
        assert_eq!(1u32 << i, u32::from(attr));

        let attr = EfiVariableAttribute::new("Test attribute", 1 << i);
        assert_eq!(1u32 << i, u32::from(&attr));
    })
}

#[test]
fn to_int32() {
    (0..31).for_each(|i| {
        let attr = EfiVariableAttribute::new("Test attribute", 1 << i);
        assert_eq!(1i32 << i, i32::from(attr));

        let attr = EfiVariableAttribute::new("Test attribute", 1 << i);
        assert_eq!(1i32 << i, i32::from(&attr));
    });
}

#[test]
fn to_str() {
    let name = "Test attribute";
    (0..31).for_each(|i| {
        let attr = EfiVariableAttribute::new(name, 1 << i);
        assert_eq!(name, String::from(&attr));

        let attr = EfiVariableAttribute::new(name, 1 << i);
        assert_eq!(name, String::from(&attr));
    });
}

#[test]
fn display() {
    let name = "Test attribute";
    (0..31).for_each(|i| {
        let value = 1 << i;

        let attr = EfiVariableAttribute::new(name, value);
        assert_eq!(
            format!(
                "EfiVariableAttribute {{name: \"{}\", value: {:#08x}}}",
                name, value
            ),
            attr.to_string()
        );
    });
}

#[test]
fn efivar_attribute_display_and_values() {
    let attr = EfivarAttribute::init("Wide", 0x1234);
    assert_eq!("Wide", attr.name());
    assert_eq!(
        format!("EfivarAttribute {{name: \"{}\", value: {:#016x}}}", "Wide", 0x1234u64),
        attr.to_string()
    );
    assert_eq!(0x1234u16, u16::from(attr));
    assert_eq!(0x1234u64, u64::from(&attr));
    assert_eq!("Wide", String::from(attr));
}

fn names(word: u32) -> Vec<&'static str> {
    parse_attributes(word).iter().map(|a| a.name()).collect()
}

#[test]
fn decode_three_gives_two_flags() {
    assert_eq!(vec!["Non-Volatile", "Boot Service Access"], names(0x3));
    let values: Vec<u32> = parse_attributes(0x3).iter().map(|a| a.value).collect();
    assert_eq!(vec![0x1, 0x2], values);
}

#[test]
fn decode_zero_gives_no_flag() {
    assert!(parse_attributes(0).is_empty());
}

#[test]
fn decode_all_bits_gives_the_eight_flags() {
    let values: Vec<u32> = parse_attributes(0xffff_ffff).iter().map(|a| a.value).collect();
    assert_eq!(vec![0x1, 0x2, 0x4, 0x8, 0x10, 0x20, 0x40, 0x80], values);
    assert_eq!(
        vec![
            "Non-Volatile",
            "Boot Service Access",
            "Runtime Service Access",
            "Hardware Error Record",
            "Authenticated Write Access",
            "Time-Based Authenticated Write Access",
            "Append Write",
            "Enhanced Authenticated Access",
        ],
        names(0xffff_ffff)
    );
}

#[test]
fn decode_drops_undefined_bits() {
    assert_eq!(vec!["Runtime Service Access"], names(0x8000_0104));
}
