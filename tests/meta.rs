use unitypackage_extractor::meta::{extract_guid_from_meta, is_folder_asset, is_folder_marker, MetaParseError};

#[test]
fn guid_is_read() {
    let meta = "fileFormatVersion: 2\nguid: 0123456789abcdef0123456789abcdef\n";
    assert_eq!(extract_guid_from_meta(meta), Ok("0123456789abcdef0123456789abcdef".to_string()));
}

#[test]
fn missing_guid() {
    assert_eq!(extract_guid_from_meta("fileFormatVersion: 2\n"), Err(MetaParseError::MissingGuid));
}

#[test]
fn numeric_guid_is_not_a_string() {
    assert_eq!(extract_guid_from_meta("guid: 12345\n"), Err(MetaParseError::MissingGuid));
}

#[test]
fn malformed_meta() {
    assert_eq!(extract_guid_from_meta("guid: [unclosed\n"), Err(MetaParseError::Malformed));
    assert_eq!(is_folder_asset("key: [unclosed\n"), Err(MetaParseError::Malformed));
}

#[test]
fn empty_meta_holds_no_document() {
    assert_eq!(extract_guid_from_meta(""), Err(MetaParseError::Malformed));
}

#[test]
fn folder_marker() {
    assert_eq!(is_folder_asset("guid: abc\nfolderAsset: yes\n"), Ok(true));
    assert_eq!(is_folder_asset("guid: abc\n"), Ok(false));
    assert_eq!(is_folder_asset("guid: abc\nfolderAsset: no\n"), Ok(false));
    assert!(is_folder_marker(&Some("yes".to_string())));
    assert!(!is_folder_marker(&Some("true".to_string())));
    assert!(!is_folder_marker(&None));
}
