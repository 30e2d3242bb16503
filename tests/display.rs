use efivar::attributes::EfiVariableAttribute;
use efivar::display::{Decimal, Verbose};
use efivar::guid::EfiGuid;
use efivar::variable::EfiVariable;
use std::convert::TryFrom;

fn variable(name: &str, data: Vec<u8>) -> EfiVariable {
    EfiVariable {
        attributes: Vec::new(),
        guid: EfiGuid::try_from("12345678-1234-1234-1234-12345678abcd").unwrap(),
        name: name.into(),
        data,
    }
}

#[test]
fn decimal_test_display_no_data() {
    let var = variable("Unit Test Variable", [].to_vec());
    assert_eq!("", Decimal(&var).to_string());
}

#[test]
fn test_display_half_word_data() {
    let var = variable("Unit Test Variable", [0, 1, 2, 3].to_vec());
    assert_eq!("0 1 2 3", Decimal(&var).to_string());
}

#[test]
fn test_display_word_data() {
    let var = variable(
        "Unit Test Variable",
        [0x00, 0x01, 0x02, 0x03, 0x04, 0x05, 0x06, 0x07].to_vec(),
    );
    assert_eq!("0 1 2 3 4 5 6 7", Decimal(&var).to_string());
}

#[test]
fn test_display_double_word_data() {
    let var = variable(
        "Unit Test Variable",
        [
            0x00, 0x01, 0x02, 0x03, 0x04, 0x05, 0x06, 0x07, 0x08, 0x09, 0x0a, 0x0b, 0x0c, 0x0d,
            0x0e, 0x0f,
        ]
        .to_vec(),
    );
    assert_eq!("0 1 2 3 4 5 6 7  8 9 10 11 12 13 14 15", Decimal(&var).to_string());
}

#[test]
fn test_display_triple_word_data() {
    let var = variable(
        "Unit Test Variable",
        [
            0x00, 0x01, 0x02, 0x03, 0x04, 0x05, 0x06, 0x07, 0x08, 0x09, 0x0a, 0x0b, 0x0c, 0x0d,
            0x0e, 0x0f, 0x10, 0x11, 0x12, 0x13, 0x14, 0x15, 0x16, 0x17,
        ]
        .to_vec(),
    );
    assert_eq!(
        "".to_owned() + "0 1 2 3 4 5 6 7  8 9 10 11 12 13 14 15  " + "16 17 18 19 20 21 22 23",
        Decimal(&var).to_string()
    );
}

#[test]
fn test_quad_word_display() {
    let var = variable(
        "Unit Test Variable",
        [
            0x00, 0x01, 0x02, 0x03, 0x04, 0x05, 0x06, 0x07, 0x08, 0x09, 0x0a, 0x0b, 0x0c, 0x0d,
            0x0e, 0x0f, 0x10, 0x11, 0x12, 0x13, 0x14, 0x15, 0x16, 0x17, 0x18, 0x19, 0x1a, 0x1b,
            0x1c, 0x1d, 0x1e, 0x1f,
        ]
        .to_vec(),
    );
    assert_eq!(
        "".to_owned()
            + "0 1 2 3 4 5 6 7  8 9 10 11 12 13 14 15  "
            + "16 17 18 19 20 21 22 23  24 25 26 27 28 29 30 31",
        Decimal(&var).to_string()
    );
}

#[test]
fn test_oct_word_display() {
    let var = variable(
        "Unit Test Variable",
        [
            0x00, 0x01, 0x02, 0x03, 0x04, 0x05, 0x06, 0x07, 0x08, 0x09, 0x0a, 0x0b, 0x0c, 0x0d,
            0x0e, 0x0f, 0x10, 0x11, 0x12, 0x13, 0x14, 0x15, 0x16, 0x17, 0x18, 0x19, 0x1a, 0x1b,
            0x1c, 0x1d, 0x1e, 0x1f, 0xe0, 0xe1, 0xe2, 0xe3, 0xe4, 0xe5, 0xe6, 0xe7, 0xe8, 0xe9,
            0xea, 0xeb, 0xec, 0xed, 0xee, 0xef, 0xf0, 0xf1, 0xf2, 0xf3, 0xf4, 0xf5, 0xf6, 0xf7,
            0xf8, 0xf9, 0xfa, 0xfb, 0xfc, 0xfd, 0xfe, 0xff,
        ]
        .to_vec(),
    );
    assert_eq!(
        "".to_owned()
            + "0 1 2 3 4 5 6 7  8 9 10 11 12 13 14 15  "
            + "16 17 18 19 20 21 22 23  24 25 26 27 28 29 30 31  "
            + "224 225 226 227 228 229 230 231  232 233 234 235 236 237 238 239  "
            + "240 241 242 243 244 245 246 247  248 249 250 251 252 253 254 255",
        Decimal(&var).to_string()
    );
}

#[test]
fn test_display_no_name_no_data() {
    let var = variable("", [].to_vec());
    assert_eq!(
        "GUID: 12345678-1234-1234-1234-12345678abcd\n\
         Name: \"\"\n\
         Attributes:\n\
         Value:\n\
         00000000",
        Verbose(&var).to_string()
    );
}

#[test]
fn verbose_test_display_no_data() {
    let var = variable("Unit Test Variable", [].to_vec());
    assert_eq!(
        "GUID: 12345678-1234-1234-1234-12345678abcd\n\
         Name: \"Unit Test Variable\"\n\
         Attributes:\n\
         Value:\n\
         00000000",
        Verbose(&var).to_string()
    );
}

#[test]
fn test_display_16_byte_data() {
    let var = variable("Unit Test Variable", [0; 16].to_vec());
    assert_eq!(
        "GUID: 12345678-1234-1234-1234-12345678abcd\n\
         Name: \"Unit Test Variable\"\n\
         Attributes:\n\
         Value:\n\
         00000000  00 00 00 00 00 00 00 00  00 00 00 00 00 00 00 00  |................|\n\
         00000010",
        Verbose(&var).to_string()
    );
}

#[test]
fn test_display_17_byte_data() {
    let var = variable("Unit Test Variable", [0; 17].to_vec());
    assert_eq!(
        "GUID: 12345678-1234-1234-1234-12345678abcd\n\
         Name: \"Unit Test Variable\"\n\
         Attributes:\n\
         Value:\n\
         00000000  00 00 00 00 00 00 00 00  00 00 00 00 00 00 00 00  |................|\n\
         00000010  00                                                |.               |\n\
         00000011",
        Verbose(&var).to_string()
    );
}

#[test]
fn test_display_mixed_byte_data() {
    let var = variable(
        "Unit Test Variable",
        [
            0x00, 0x00, 0x54, 0x65, 0x73, 0x74, 0x20, 0x50, 0x61, 0x73, 0x73, 0x65, 0x64, 0x21,
            0x00, 0x00,
        ]
        .to_vec(),
    );
    assert_eq!(
        "GUID: 12345678-1234-1234-1234-12345678abcd\n\
         Name: \"Unit Test Variable\"\n\
         Attributes:\n\
         Value:\n\
         00000000  00 00 54 65 73 74 20 50  61 73 73 65 64 21 00 00  |..Test Passed!..|\n\
         00000010",
        Verbose(&var).to_string()
    );
}

#[test]
fn verbose_lists_attributes_by_value() {
    let mut var = variable("Boot0000", [0x41].to_vec());
    var.attributes = vec![
        EfiVariableAttribute::new("Runtime Service Access", 0x4),
        EfiVariableAttribute::new("Non-Volatile", 0x1),
    ];
    assert_eq!(
        "GUID: 12345678-1234-1234-1234-12345678abcd\n\
         Name: \"Boot0000\"\n\
         Attributes:\n\
         \tNon-Volatile\n\
         \tRuntime Service Access\n\
         Value:\n\
         00000000  41                                                |A               |\n\
         00000001",
        Verbose(&var).to_string()
    );
}

#[test]
fn decimal_seventeen_bytes_has_no_gap_before_last() {
    let var = variable("x", (0u8..17).collect());
    assert_eq!("0 1 2 3 4 5 6 7  8 9 10 11 12 13 14 1516", Decimal(&var).to_string());
}
