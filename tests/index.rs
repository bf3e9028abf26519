use unitypackage_extractor::index::{
    classify_member, AssetIndex, AssetRecord, IndexError, Member, MemberKind,
};

fn grouped(id: &str, kind: MemberKind) -> Member {
    Member::Grouped { id: id.to_string(), kind }
}

#[test]
fn member_paths_are_classified() {
    assert_eq!(classify_member("abc/pathname"), grouped("abc", MemberKind::Pathname));
    assert_eq!(classify_member("abc/asset.meta"), grouped("abc", MemberKind::Meta));
    assert_eq!(classify_member("abc/asset"), grouped("abc", MemberKind::Payload));
    assert_eq!(classify_member("abc/preview.png"), Member::Unknown { name: "preview.png".to_string() });
    assert_eq!(classify_member("abc"), Member::Ignored);
    assert_eq!(classify_member("abc/"), Member::Ignored);
    assert_eq!(classify_member("/pathname"), Member::Ignored);
}

#[test]
fn members_are_grouped_in_any_order() {
    let mut idx = AssetIndex::new();
    idx.note_payload("f1".to_string());
    idx.insert_text("f1".to_string(), MemberKind::Meta, "guid: f1\n".to_string());
    idx.insert_text("d1".to_string(), MemberKind::Pathname, "Assets/Dir".to_string());
    idx.insert_text("f1".to_string(), MemberKind::Pathname, "Assets/Dir/Foo.txt".to_string());
    idx.insert_text("d1".to_string(), MemberKind::Meta, "guid: d1\nfolderAsset: yes\n".to_string());
    let recs = idx.records().unwrap();
    assert_eq!(
        recs,
        vec![
            AssetRecord {
                id: "f1".to_string(),
                pathname: "Assets/Dir/Foo.txt".to_string(),
                meta: "guid: f1\n".to_string(),
                is_directory: false,
            },
            AssetRecord {
                id: "d1".to_string(),
                pathname: "Assets/Dir".to_string(),
                meta: "guid: d1\nfolderAsset: yes\n".to_string(),
                is_directory: true,
            },
        ]
    );
}

#[test]
fn a_file_record_without_payload_is_a_folder() {
    let mut idx = AssetIndex::new();
    idx.insert_text("x".to_string(), MemberKind::Pathname, "Assets/Thing".to_string());
    idx.insert_text("x".to_string(), MemberKind::Meta, "guid: x\n".to_string());
    assert!(idx.records().unwrap()[0].is_directory);
}

#[test]
fn a_later_text_member_replaces_an_earlier_one() {
    let mut idx = AssetIndex::new();
    idx.insert_text("x".to_string(), MemberKind::Pathname, "old".to_string());
    idx.insert_text("x".to_string(), MemberKind::Pathname, "new".to_string());
    idx.insert_text("x".to_string(), MemberKind::Meta, "guid: x\n".to_string());
    idx.note_payload("x".to_string());
    idx.note_payload("x".to_string());
    assert_eq!(idx.groups.len(), 1);
    assert_eq!(idx.staged.len(), 1);
    assert_eq!(idx.records().unwrap()[0].pathname, "new");
}

#[test]
fn empty_index_is_an_error() {
    assert_eq!(AssetIndex::new().records(), Err(IndexError::Empty));
}

#[test]
fn missing_fields_and_bad_meta() {
    let mut idx = AssetIndex::new();
    idx.insert_text("a".to_string(), MemberKind::Meta, "guid: a\n".to_string());
    assert_eq!(idx.records(), Err(IndexError::MissingPathname { id: "a".to_string() }));

    let mut idx = AssetIndex::new();
    idx.insert_text("b".to_string(), MemberKind::Pathname, "Assets/B".to_string());
    assert_eq!(idx.records(), Err(IndexError::MissingMeta { id: "b".to_string() }));

    let mut idx = AssetIndex::new();
    idx.insert_text("c".to_string(), MemberKind::Pathname, "Assets/C".to_string());
    idx.insert_text("c".to_string(), MemberKind::Meta, "guid: [".to_string());
    assert_eq!(idx.records(), Err(IndexError::BadMeta { id: "c".to_string() }));
}

#[test]
fn the_first_faulty_group_is_reported() {
    let mut idx = AssetIndex::new();
    idx.insert_text("ok".to_string(), MemberKind::Pathname, "A".to_string());
    idx.insert_text("ok".to_string(), MemberKind::Meta, "guid: ok\n".to_string());
    idx.insert_text("m1".to_string(), MemberKind::Pathname, "B".to_string());
    idx.insert_text("m2".to_string(), MemberKind::Meta, "guid: m2\n".to_string());
    assert_eq!(idx.records(), Err(IndexError::MissingMeta { id: "m1".to_string() }));
}
