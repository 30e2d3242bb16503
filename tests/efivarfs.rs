use efivar::efivarfs::EfiVariables;
use efivar::error::VarError;
use efivar::guid::EfiGuid;
use efivar::names::{convert_name, list_variable_names, normalize_combined_name, split_combined_name};

const GUID: &str = "8be4df61-93ca-11d2-aa0d-00e098032b8c";

#[test]
fn guid_last_name_is_refused_as_input() {
    let vars = EfiVariables::new();
    assert_eq!(
        Err(VarError::InvalidInput),
        vars.variable_file("Boot0000-8be4df61-93ca-11d2-aa0d-00e098032b8c")
    );
}

#[test]
fn guid_first_name_normalizes_to_name_first() {
    let vars = EfiVariables::new();
    assert_eq!(
        Ok("Boot0000-8be4df61-93ca-11d2-aa0d-00e098032b8c".to_string()),
        vars.variable_file("8be4df61-93ca-11d2-aa0d-00e098032b8c-Boot0000")
    );
    assert_eq!(
        Ok("Boot0000-8be4df61-93ca-11d2-aa0d-00e098032b8c".to_string()),
        normalize_combined_name("8be4df61-93ca-11d2-aa0d-00e098032b8c-Boot0000")
    );
}

#[test]
fn thirty_seven_characters_are_too_few() {
    let name37 = format!("{}-", GUID);
    assert_eq!(37, name37.len());
    assert_eq!(Err(VarError::InvalidInput), normalize_combined_name(&name37));
    let file37 = format!("-{}", GUID);
    assert!(convert_name(Some(&file37)).is_err());
    assert!(split_combined_name(&format!("{}-X", GUID)).is_ok());
}

#[test]
fn converted_names_keep_name_first_form() {
    assert_eq!(
        Ok("Boot0000-8be4df61-93ca-11d2-aa0d-00e098032b8c".to_string()),
        convert_name(Some("Boot0000-8be4df61-93ca-11d2-aa0d-00e098032b8c"))
    );
    assert_eq!(
        Err("file name 8be4df61-93ca-11d2-aa0d-00e098032b8c-Boot0000 does not represent an EFI variable name".to_string()),
        convert_name(Some("8be4df61-93ca-11d2-aa0d-00e098032b8c-Boot0000"))
    );
    assert_eq!(Err("no name provided".to_string()), convert_name(None));
}

#[test]
fn listing_skips_other_files() {
    let names = vec![
        "Boot0000-8be4df61-93ca-11d2-aa0d-00e098032b8c".to_string(),
        "README".to_string(),
        "x-8be4df61-93ca-11d2-aa0d-00e098032b8z".to_string(),
        "Lang-8BE4DF61-93CA-11D2-AA0D-00E098032B8C".to_string(),
    ];
    assert_eq!(
        vec![
            "Boot0000-8be4df61-93ca-11d2-aa0d-00e098032b8c".to_string(),
            "Lang-8BE4DF61-93CA-11D2-AA0D-00E098032B8C".to_string(),
        ],
        list_variable_names(&names)
    );
    assert_eq!(list_variable_names(&names), EfiVariables::new().list(&names));
}

#[test]
fn modern_file_of_three_bytes_is_too_short() {
    let vars = EfiVariables::new();
    let name = format!("{}-Boot0000", GUID);
    assert_eq!(
        Err(VarError::TooShort { len: 3 }),
        vars.decode_variable(&name, &[7, 0, 0]).map(|v| v.data)
    );
    assert_eq!("invalid data", VarError::TooShort { len: 3 }.to_string());
}

#[test]
fn modern_file_decodes_attributes_and_payload() {
    let mut vars = EfiVariables::default();
    assert_eq!("/sys/firmware/efi/efivars", vars.path);
    vars.set_path("/tmp/vars".to_string());
    assert_eq!("/tmp/vars", vars.path);
    let name = format!("{}-Boot0000", GUID);
    let v = vars.decode_variable(&name, &[0x07, 0x00, 0x00, 0x00, 0xaa, 0xbb]).unwrap();
    assert_eq!("Boot0000", v.name);
    assert_eq!(EfiGuid::parse(GUID).unwrap(), v.guid);
    assert_eq!(vec![0xaa, 0xbb], v.data);
    let values: Vec<u32> = v.attributes.iter().map(|a| a.value).collect();
    assert_eq!(vec![1, 2, 4], values);
    let empty = vars.decode_variable(&name, &[0x00, 0x01, 0x00, 0x00]).unwrap();
    assert!(empty.data.is_empty());
    assert!(empty.attributes.is_empty());
}

#[test]
fn modern_payload_is_not_limited() {
    let vars = EfiVariables::new();
    let mut contents = vec![1, 0, 0, 0];
    contents.extend(std::iter::repeat(5u8).take(4000));
    let v = vars.decode_variable(&format!("{}-Big", GUID), &contents).unwrap();
    assert_eq!(4000, v.data.len());
}
