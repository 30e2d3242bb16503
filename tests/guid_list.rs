use efivar::guid::{EfiGuid, EfiGuidError};
use efivar::guid_list::{EfiGuidList, EfiGuidListEntry, GuidListError, GuidListSortField};

const DOC: &str = r#"[
  {"guid": "8be4df61-93ca-11d2-aa0d-00e098032b8c", "name": "efi_global", "description": "EFI Global Variable"},
  {"guid": "05ad34ba-6f02-4214-952e-4da0398e2bb9", "name": "dxe", "description": "DXE Services Table", "extra": "x"},
  {"guid": "d719b2cb-3d3a-4596-a3bc-dad00e67656f", "name": "efi_security_db", "description": "EFI Security Database"}
]"#;

fn names(list: &EfiGuidList, field: GuidListSortField) -> Vec<String> {
    list.guids(field).iter().map(|e| e.name.clone()).collect()
}

#[test]
fn guid_list_loads_rows_and_zero() {
    let mut list = EfiGuidList::new();
    assert!(list.guids(GuidListSortField::Guid).is_empty());
    list.load_from_str(DOC).unwrap();
    assert_eq!(
        vec!["zero", "dxe", "efi_global", "efi_security_db"],
        names(&list, GuidListSortField::Guid)
    );
    assert_eq!(
        vec!["dxe", "efi_global", "efi_security_db", "zero"],
        names(&list, GuidListSortField::Id)
    );
    assert_eq!(
        vec!["efi_global", "dxe", "efi_security_db", "zero"],
        names(&list, GuidListSortField::Unsorted)
    );
    let zero = list.guids(GuidListSortField::Guid)[0].to_string();
    assert_eq!("{00000000-0000-0000-0000-000000000000}\t{zero}\tzeroed sentinel guid", zero);
}

#[test]
fn guid_list_later_row_replaces_same_name() {
    let mut list = EfiGuidList::default();
    list.load_from_str(
        r#"[{"guid": "8be4df61-93ca-11d2-aa0d-00e098032b8c", "name": "a", "description": "one"},
            {"guid": "05ad34ba-6f02-4214-952e-4da0398e2bb9", "name": "a", "description": "two"}]"#,
    )
    .unwrap();
    let rows = list.guids(GuidListSortField::Id);
    assert_eq!(2, rows.len());
    assert_eq!("two", rows[0].description);
}

#[test]
fn guid_list_errors() {
    let mut list = EfiGuidList::new();
    assert!(matches!(list.load_from_str("not json"), Err(GuidListError::Json { .. })));
    assert_eq!(
        Err(GuidListError::DescriptionMissing),
        list.load_from_str(r#"[{"guid": "8be4df61-93ca-11d2-aa0d-00e098032b8c", "name": "a"}]"#)
    );
    assert_eq!(
        Err(GuidListError::GuidMissing),
        list.load_from_str(r#"[{"description": "d", "name": "a"}]"#)
    );
    assert_eq!(
        Err(GuidListError::NameMissing),
        list.load_from_str(r#"[{"description": "d", "guid": "8be4df61-93ca-11d2-aa0d-00e098032b8c"}]"#)
    );
    assert_eq!(
        Err(GuidListError::BadGuid(EfiGuidError::BadFormat)),
        list.load_from_str(r#"[{"description": "d", "guid": "nope", "name": "a"}]"#)
    );
    assert!(list.guids_map.is_none());
}

#[test]
fn guid_list_entry_from_pairs() {
    let pairs = vec![
        ("name".to_string(), "first".to_string()),
        ("guid".to_string(), "8be4df61-93ca-11d2-aa0d-00e098032b8c".to_string()),
        ("description".to_string(), "d".to_string()),
        ("name".to_string(), "second".to_string()),
    ];
    let e = EfiGuidListEntry::from_pairs(&pairs).unwrap();
    assert_eq!("second", e.name);
    assert_eq!(EfiGuid::parse("8be4df61-93ca-11d2-aa0d-00e098032b8c").unwrap(), e.guid);
}
