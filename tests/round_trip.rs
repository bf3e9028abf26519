use unitypackage_extractor::index::{classify_member, AssetIndex, Member, MemberKind};
use unitypackage_extractor::pack::{archive_members, MemberBody, Packer};
use unitypackage_extractor::rebuild::{Action, FsOp, Rebuild};
use unitypackage_extractor::ui::OverwriteMode;

#[test]
fn packed_assets_come_back_at_their_paths() {
    let mut p = Packer::new();
    p.visit("Dir".to_string(), None, Some("guid: d1\nfolderAsset: yes\n".to_string())).unwrap();
    p.visit("Dir/Foo.txt".to_string(), Some("/src/Dir/Foo.txt".to_string()), Some("guid: f1\n".to_string()))
        .unwrap();
    let entries = p.finish().unwrap();

    let mut idx = AssetIndex::new();
    for e in &entries {
        for m in archive_members(e) {
            match (classify_member(&m.path), m.body) {
                (Member::Grouped { id, kind: MemberKind::Payload }, _) => idx.note_payload(id),
                (Member::Grouped { id, kind }, MemberBody::Text(t)) => idx.insert_text(id, kind, t),
                other => panic!("unexpected member {:?}", other),
            }
        }
    }
    let records = idx.records().unwrap();
    let mut m = Rebuild::new(records, "out".to_string(), "stage".to_string(), OverwriteMode::Rename);
    let mut all = Vec::new();
    loop {
        match m.start_record(false) {
            Action::Survey { .. } => {}
            Action::Stopped { .. } => break,
            other => panic!("unexpected {:?}", other),
        }
        match m.take_listing(Vec::new()) {
            Action::Apply { ops } => all.extend(ops),
            other => panic!("unexpected {:?}", other),
        }
    }
    assert_eq!(
        all,
        vec![
            FsOp::WriteFile {
                path: "out/Dir.meta".to_string(),
                content: "guid: d1\nfolderAsset: yes\n".to_string(),
            },
            FsOp::WriteFile { path: "out/Dir/Foo.txt.meta".to_string(), content: "guid: f1\n".to_string() },
            FsOp::MovePayload { from: "stage/f1".to_string(), to: "out/Dir/Foo.txt".to_string() },
        ]
    );
}
