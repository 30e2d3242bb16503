use efivar::efivar::EfiVariables;
use efivar::error::VarError;
use efivar::guid::EfiGuid;
use efivar::record::{ReadAction, ReadEvent, RecordReader};

/// Runs a reader against a source that hands out at most `chunk` bytes a read.
fn read_record(reader: &mut RecordReader, source: &[u8], chunk: usize) -> ReadAction {
    let mut pos = 0;
    let mut action = reader.start();
    loop {
        let want = match &action {
            ReadAction::Fill(n) => *n,
            ReadAction::ProbeEnd => 1,
            _ => return action,
        };
        let n = want.min(chunk).min(source.len() - pos);
        let bytes = source[pos..pos + n].to_vec();
        pos += n;
        action = reader.step(ReadEvent::Bytes(bytes));
    }
}

/// Runs a reader against a source that never ends and gives one byte a read.
fn read_endless(reader: &mut RecordReader) -> ReadAction {
    let mut action = reader.start();
    loop {
        match &action {
            ReadAction::Fill(_) | ReadAction::ProbeEnd => {}
            _ => return action,
        }
        action = reader.step(ReadEvent::Bytes(vec![0xff]));
    }
}

fn legacy(size: usize) -> EfiVariables {
    let mut v = EfiVariables { path: "".into(), platform_size: 0 };
    v.set_firmware_platform_size(size).unwrap();
    v
}

fn failure(action: ReadAction) -> String {
    match action {
        ReadAction::Fail(e) => e.to_string(),
        other => panic!("expected a failure, got {:?}", other),
    }
}

#[test]
fn get_firmware_platform_size() {
    assert_eq!(EfiVariables::get_firmware_platform_size("32\n").unwrap(), 32);
    assert_eq!(EfiVariables::get_firmware_platform_size("64\n").unwrap(), 64);
    assert_eq!(EfiVariables::get_firmware_platform_size("1\n").unwrap(), 1);
}

#[test]
fn platform_size_text_must_be_a_number() {
    assert_eq!(Err(VarError::BadPlatformSize), EfiVariables::get_firmware_platform_size(""));
    assert_eq!(Err(VarError::BadPlatformSize), EfiVariables::get_firmware_platform_size("6x4"));
    assert_eq!(Err(VarError::BadPlatformSize), EfiVariables::get_firmware_platform_size(" 64"));
    assert_eq!(Ok(64), EfiVariables::get_firmware_platform_size("+64"));
    assert_eq!(Ok(64), EfiVariables::get_firmware_platform_size("64 bits"));
    assert_eq!(
        Err(VarError::BadPlatformSize),
        EfiVariables::get_firmware_platform_size("99999999999999999999999")
    );
}

#[test]
fn new_probes_the_platform_size() {
    let v = EfiVariables::new("64\n").unwrap();
    assert_eq!(64, v.platform_size);
    assert_eq!("/sys/firmware/efi/vars", v.path);
    assert_eq!(
        Err(VarError::UnsupportedPlatformSize { size: 16 }),
        EfiVariables::new("16\n").map(|v| v.platform_size)
    );
}

#[test]
fn set_firmware_platform_size() {
    let mut efi_variables = EfiVariables { path: "".into(), platform_size: 0 };

    efi_variables.set_firmware_platform_size(64).unwrap();
    assert_eq!(efi_variables.platform_size, 64);

    efi_variables.set_firmware_platform_size(32).unwrap();
    assert_eq!(efi_variables.platform_size, 32);

    let result = efi_variables.set_firmware_platform_size(36).err();
    assert_eq!(result.unwrap().to_string(), "Unsupported platform size: 36");
}

#[test]
fn efi_variable_buffer_32_read_empty() {
    let mut reader = legacy(32).record_reader().unwrap();
    assert_eq!(
        failure(read_record(&mut reader, &[], 4096)),
        "Corrupt variable. Read 0 byte(s) but expected to read 2076."
    );
}

#[test]
fn efi_variable_buffer_32_read_short() {
    let mut reader = legacy(32).record_reader().unwrap();
    assert_eq!(
        failure(read_record(&mut reader, "1".as_bytes(), 4096)),
        "Corrupt variable. Read 1 byte(s) but expected to read 2076."
    );
}

#[test]
fn efi_variable_buffer_32_read_too_long() {
    let mut reader = legacy(32).record_reader().unwrap();
    assert_eq!(
        failure(read_record(&mut reader, &[0xff; 2077], 4096)),
        "Corrupt variable. Read 2077 byte(s) but expected to read 2076."
    );
}

#[test]
fn efi_variable_buffer_32_multiple_reads() {
    let mut reader = legacy(32).record_reader().unwrap();
    assert_eq!(
        failure(read_endless(&mut reader)),
        "Corrupt variable. Read 2077 byte(s) but expected to read 2076."
    );
}

#[test]
fn efi_variable_buffer_64_read_short() {
    let mut reader = legacy(64).record_reader().unwrap();
    assert_eq!(
        failure(read_record(&mut reader, "1".as_bytes(), 4096)),
        "Corrupt variable. Read 1 byte(s) but expected to read 2084."
    );
}

#[test]
fn efi_variable_buffer_64_read_too_long() {
    let mut reader = legacy(64).record_reader().unwrap();
    assert_eq!(
        failure(read_record(&mut reader, &[0xff; 2085], 4096)),
        "Corrupt variable. Read 2085 byte(s) but expected to read 2084."
    );
}

#[test]
fn efi_variable_buffer_64_multiple_reads() {
    let mut reader = legacy(64).record_reader().unwrap();
    assert_eq!(
        failure(read_endless(&mut reader)),
        "Corrupt variable. Read 2085 byte(s) but expected to read 2084."
    );
}

#[test]
fn short_record_in_small_reads_reports_bytes_read() {
    let mut reader = legacy(32).record_reader().unwrap();
    assert_eq!(
        ReadAction::Fail(VarError::ReadCount { read: 2075, expected: 2076 }),
        read_record(&mut reader, &[7; 2075], 10)
    );
}

#[test]
fn exact_record_completes_and_survives_interruptions() {
    let mut reader = RecordReader::new(5);
    assert_eq!(ReadAction::Fill(5), reader.start());
    assert_eq!(ReadAction::Fill(5), reader.step(ReadEvent::Interrupted));
    assert_eq!(ReadAction::Fill(2), reader.step(ReadEvent::Bytes(vec![1, 2, 3])));
    assert_eq!(ReadAction::ProbeEnd, reader.step(ReadEvent::Bytes(vec![4, 5])));
    assert_eq!(ReadAction::ProbeEnd, reader.step(ReadEvent::Interrupted));
    assert_eq!(ReadAction::Complete, reader.step(ReadEvent::Bytes(vec![])));
    assert_eq!(vec![1, 2, 3, 4, 5], reader.into_record());
}

const GUID: &str = "8be4df61-93ca-11d2-aa0d-00e098032b8c";

/// A record in the layout of a platform whose word is `w` bytes.
fn record(w: usize, name: &str, guid: &EfiGuid, data: &[u8], data_size: u64, status: u64, attrs: u32) -> Vec<u8> {
    let mut rec = Vec::new();
    let mut units: Vec<u16> = name.encode_utf16().collect();
    units.resize(512, 0);
    for u in units {
        rec.extend_from_slice(&u.to_le_bytes());
    }
    rec.extend_from_slice(&[guid.a.to_le_bytes().as_slice(), &guid.b.to_le_bytes(), &guid.c.to_le_bytes(), &guid.d].concat());
    rec.extend_from_slice(&data_size.to_le_bytes()[..w]);
    let mut field = data.to_vec();
    field.resize(1024, 0);
    rec.extend_from_slice(&field);
    rec.extend_from_slice(&status.to_le_bytes()[..w]);
    rec.extend_from_slice(&attrs.to_le_bytes());
    rec
}

#[test]
fn legacy_record_decodes() {
    let guid = EfiGuid::parse(GUID).unwrap();
    let rec = record(4, "Boot0000", &guid, &[1, 2, 3], 3, 0, 0x7);
    assert_eq!(2076, rec.len());
    let vars = legacy(32);
    let v = vars.decode_variable(&format!("{}-Boot0000", GUID), &rec).unwrap();
    assert_eq!("Boot0000", v.name);
    assert_eq!(guid, v.guid);
    assert_eq!(vec![1, 2, 3], v.data);
    let values: Vec<u32> = v.attributes.iter().map(|a| a.value).collect();
    assert_eq!(vec![1, 2, 4], values);
}

#[test]
fn legacy_record_decodes_on_64_bit_platform() {
    let guid = EfiGuid::parse(GUID).unwrap();
    let rec = record(8, "Lang", &guid, &[0x65, 0x6e], 2, 0, 0x6);
    assert_eq!(2084, rec.len());
    let v = legacy(64).parse_payload(&rec).unwrap();
    assert_eq!("Lang", v.name);
    assert_eq!(vec![0x65, 0x6e], v.data);
}

#[test]
fn legacy_data_size_over_limit_is_corrupt() {
    let guid = EfiGuid::parse(GUID).unwrap();
    let rec = record(4, "Boot0000", &guid, &[0; 1024], 1025, 0, 0x7);
    let err = legacy(32).decode_variable(&format!("{}-Boot0000", GUID), &rec).unwrap_err();
    assert_eq!(VarError::DataSizeExceeded { data_size: 1025 }, err);
    assert_eq!("Corrupt variable. Reported data size exceeds maximum", err.to_string());
}

#[test]
fn legacy_full_data_field_is_accepted() {
    let guid = EfiGuid::parse(GUID).unwrap();
    let rec = record(4, "Boot0000", &guid, &[9; 1024], 1024, 0, 0);
    let v = legacy(32).parse_payload(&rec).unwrap();
    assert_eq!(1024, v.data.len());
    assert!(v.attributes.is_empty());
}

#[test]
fn legacy_nonzero_status_fails() {
    let guid = EfiGuid::parse(GUID).unwrap();
    let rec = record(8, "Boot0000", &guid, &[], 0, 14, 0);
    let err = legacy(64).parse_payload(&rec).unwrap_err();
    assert_eq!(VarError::Status { code: 14 }, err);
    assert_eq!("Variable read error. Unexpected status code 14", err.to_string());
}

#[test]
fn legacy_identity_is_checked() {
    let guid = EfiGuid::parse(GUID).unwrap();
    let rec = record(4, "Boot0001", &guid, &[], 0, 0, 0);
    assert_eq!(
        Err(VarError::NameMismatch),
        legacy(32).decode_variable(&format!("{}-Boot0000", GUID), &rec).map(|v| v.name)
    );
    let other = EfiGuid::parse("8be4df61-93ca-11d2-aa0d-00e098032b8d").unwrap();
    let rec = record(4, "Boot0000", &other, &[], 0, 0, 0);
    assert_eq!(
        Err(VarError::GuidMismatch),
        legacy(32).decode_variable(&format!("{}-Boot0000", GUID), &rec).map(|v| v.name)
    );
}

#[test]
fn legacy_bad_utf16_name_fails() {
    let guid = EfiGuid::parse(GUID).unwrap();
    let mut rec = record(4, "A", &guid, &[], 0, 0, 0);
    rec[0] = 0x00;
    rec[1] = 0xd8;
    assert_eq!(Err(VarError::InvalidName), legacy(32).parse_payload(&rec).map(|v| v.name));
}

#[test]
fn legacy_wrong_length_record_fails() {
    assert_eq!(
        Err(VarError::ReadCount { read: 10, expected: 2076 }),
        legacy(32).parse_payload(&[0; 10]).map(|v| v.name)
    );
    let unprobed = EfiVariables { path: "".into(), platform_size: 0 };
    assert_eq!(
        Err(VarError::UnsupportedPlatformSize { size: 0 }),
        unprobed.parse_payload(&[0; 2076]).map(|v| v.name)
    );
}

#[test]
fn legacy_variable_file_is_guid_first() {
    let vars = legacy(32);
    assert_eq!(
        Ok("8be4df61-93ca-11d2-aa0d-00e098032b8c-Boot0000/raw_var".to_string()),
        vars.variable_file("8BE4DF61-93CA-11D2-AA0D-00E098032B8C-Boot0000")
    );
    assert_eq!(Err(VarError::InvalidInput), vars.variable_file("Boot0000-8be4df61-93ca-11d2-aa0d-00e098032b8c"));
}
