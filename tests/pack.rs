use unitypackage_extractor::meta::MetaParseError;
use unitypackage_extractor::pack::{
    archive_members, get_relative_path, slashes_of, walk_considers, ArchiveMember, MemberBody,
    NotBelowBase, PackEntry, PackError, Packer, Visited,
};

#[test]
fn hidden_entries_and_sidecars_are_not_walked() {
    assert!(walk_considers("Foo.txt"));
    assert!(walk_considers("Dir"));
    assert!(!walk_considers(".git"));
    assert!(!walk_considers("Foo.txt.meta"));
    assert!(!walk_considers(".meta"));
    assert!(walk_considers("meta"));
}

#[test]
fn relative_paths() {
    assert_eq!(get_relative_path("/p/Assets", "/p/Assets/Foo/Bar.txt"), Ok("Foo/Bar.txt".to_string()));
    assert_eq!(get_relative_path("/p/Assets/", "/p/Assets/Foo"), Ok("Foo".to_string()));
    assert_eq!(get_relative_path("C:\\p", "C:\\p\\Foo\\Bar.txt"), Ok("Foo/Bar.txt".to_string()));
    assert_eq!(get_relative_path("/p", "/p"), Ok(String::new()));
    assert_eq!(get_relative_path("/p/Assets", "/p/AssetsX/Foo"), Err(NotBelowBase));
    assert_eq!(get_relative_path("/q", "/p/Foo"), Err(NotBelowBase));
    assert_eq!(slashes_of("a\\b\\c"), "a/b/c");
}

#[test]
fn a_file_without_sidecar_is_left_out() {
    let mut p = Packer::new();
    let r = p.visit("Assets/NoMeta.txt".to_string(), Some("/src/Assets/NoMeta.txt".to_string()), None);
    assert_eq!(r, Ok(Visited::MissingSidecar));
    let r = p.visit(
        "Assets/Foo.txt".to_string(),
        Some("/src/Assets/Foo.txt".to_string()),
        Some("guid: abc\n".to_string()),
    );
    assert_eq!(r, Ok(Visited::Added));
    let entries = p.finish().unwrap();
    assert_eq!(
        entries,
        vec![PackEntry {
            guid: "abc".to_string(),
            pathname: "Assets/Foo.txt".to_string(),
            meta: "guid: abc\n".to_string(),
            source: Some("/src/Assets/Foo.txt".to_string()),
        }]
    );
}

#[test]
fn a_walk_without_assets_fails() {
    let mut p = Packer::new();
    let r = p.visit("Lonely.txt".to_string(), Some("/src/Lonely.txt".to_string()), None);
    assert_eq!(r, Ok(Visited::MissingSidecar));
    assert_eq!(p.finish(), Err(PackError::Empty));
}

#[test]
fn a_sidecar_without_guid_fails() {
    let mut p = Packer::new();
    let r = p.visit("Dir".to_string(), None, Some("folderAsset: yes\n".to_string()));
    assert_eq!(r, Err(PackError::Meta(MetaParseError::MissingGuid)));
    assert!(p.entries.is_empty());
}

#[test]
fn members_of_a_file_and_a_folder() {
    let file = PackEntry {
        guid: "abc".to_string(),
        pathname: "Assets/Foo.txt".to_string(),
        meta: "guid: abc\n".to_string(),
        source: Some("/src/Assets/Foo.txt".to_string()),
    };
    assert_eq!(
        archive_members(&file),
        vec![
            ArchiveMember {
                path: "abc/pathname".to_string(),
                body: MemberBody::Text("Assets/Foo.txt".to_string()),
            },
            ArchiveMember {
                path: "abc/asset.meta".to_string(),
                body: MemberBody::Text("guid: abc\n".to_string()),
            },
            ArchiveMember {
                path: "abc/asset".to_string(),
                body: MemberBody::File("/src/Assets/Foo.txt".to_string()),
            },
        ]
    );
    let folder = PackEntry { source: None, ..file };
    assert_eq!(archive_members(&folder).len(), 2);
}
