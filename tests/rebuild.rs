use unitypackage_extractor::index::AssetRecord;
use unitypackage_extractor::rebuild::{Action, FsOp, Outcome, Rebuild, Stage};
use unitypackage_extractor::ui::{Answer, OverwriteAction, OverwriteMode};

const META: &str = "fileFormatVersion: 2\nguid: abc\n";

fn file_record() -> AssetRecord {
    AssetRecord {
        id: "abc".to_string(),
        pathname: "Assets/Foo.txt".to_string(),
        meta: META.to_string(),
        is_directory: false,
    }
}

fn folder_record() -> AssetRecord {
    AssetRecord {
        id: "dir1".to_string(),
        pathname: "Assets/Dir".to_string(),
        meta: "guid: dir1\nfolderAsset: yes\n".to_string(),
        is_directory: true,
    }
}

fn names(v: &[&str]) -> Vec<String> {
    v.iter().map(|s| s.to_string()).collect()
}

fn write(path: &str, content: &str) -> FsOp {
    FsOp::WriteFile { path: path.to_string(), content: content.to_string() }
}

fn mv(from: &str, to: &str) -> FsOp {
    FsOp::MovePayload { from: from.to_string(), to: to.to_string() }
}

fn ops_of(a: Action) -> Vec<FsOp> {
    match a {
        Action::Apply { ops } => ops,
        other => panic!("expected operations, got {:?}", other),
    }
}

fn surveyed(mode: OverwriteMode, rec: AssetRecord) -> Rebuild {
    let mut m = Rebuild::new(vec![rec], "out".to_string(), "stage".to_string(), mode);
    let a = m.start_record(false);
    assert_eq!(a, Action::Survey { create: "out/Assets".to_string(), list: "out/Assets".to_string() });
    m
}

#[test]
fn one_file_into_an_empty_destination() {
    let mut m = surveyed(OverwriteMode::Rename, file_record());
    let ops = ops_of(m.take_listing(names(&[])));
    assert_eq!(
        ops,
        vec![write("out/Assets/Foo.txt.meta", META), mv("stage/abc", "out/Assets/Foo.txt")]
    );
    assert_eq!(m.start_record(false), Action::Stopped { outcome: Outcome::Completed });
    assert_eq!(m.stage, Stage::Done);
}

#[test]
fn same_file_again_with_rename() {
    let mut m = surveyed(OverwriteMode::Rename, file_record());
    let ops = ops_of(m.take_listing(names(&["Foo.txt", "Foo.txt.meta"])));
    assert_eq!(
        ops,
        vec![
            write("out/Assets/Foo_copy1.txt.meta", META),
            mv("stage/abc", "out/Assets/Foo_copy1.txt"),
        ]
    );
}

#[test]
fn rename_picks_the_lowest_free_copy_for_both_files() {
    let mut m = surveyed(OverwriteMode::Rename, file_record());
    let listing = names(&["Foo.txt", "Foo.txt.meta", "Foo_copy1.txt", "Foo_copy1.txt.meta"]);
    let ops = ops_of(m.take_listing(listing));
    assert_eq!(
        ops,
        vec![
            write("out/Assets/Foo_copy2.txt.meta", META),
            mv("stage/abc", "out/Assets/Foo_copy2.txt"),
        ]
    );
}

#[test]
fn payload_rename_takes_the_new_sidecar_along() {
    let mut m = surveyed(OverwriteMode::Rename, file_record());
    let ops = ops_of(m.take_listing(names(&["Foo.txt"])));
    assert_eq!(
        ops,
        vec![
            write("out/Assets/Foo.txt.meta", META),
            FsOp::RenameFile {
                from: "out/Assets/Foo.txt.meta".to_string(),
                to: "out/Assets/Foo_copy1.txt.meta".to_string(),
            },
            mv("stage/abc", "out/Assets/Foo_copy1.txt"),
        ]
    );
}

#[test]
fn skip_leaves_an_existing_sidecar_and_payload_alone() {
    let mut m = surveyed(OverwriteMode::Skip, file_record());
    let ops = ops_of(m.take_listing(names(&["Foo.txt", "Foo.txt.meta"])));
    assert!(ops.is_empty());
}

#[test]
fn skip_of_the_payload_alone_still_writes_the_sidecar() {
    let mut m = surveyed(OverwriteMode::Skip, file_record());
    let ops = ops_of(m.take_listing(names(&["Foo.txt"])));
    assert_eq!(ops, vec![write("out/Assets/Foo.txt.meta", META)]);
}

#[test]
fn overwrite_replaces_both() {
    let mut m = surveyed(OverwriteMode::Overwrite, file_record());
    let ops = ops_of(m.take_listing(names(&["Foo.txt", "Foo.txt.meta"])));
    assert_eq!(
        ops,
        vec![write("out/Assets/Foo.txt.meta", META), mv("stage/abc", "out/Assets/Foo.txt")]
    );
}

#[test]
fn ask_mode_asks_for_each_conflict() {
    let mut m = surveyed(OverwriteMode::Ask, file_record());
    let a = m.take_listing(names(&["Foo.txt", "Foo.txt.meta"]));
    assert_eq!(a, Action::Ask { path: "Assets/Foo.txt.meta".to_string() });
    assert_eq!(m.stage, Stage::MetaQuestion);
    let a = m.take_answer(Answer { action: OverwriteAction::Overwrite, apply_to_all: false });
    assert_eq!(a, Action::Ask { path: "Foo.txt".to_string() });
    assert_eq!(m.stage, Stage::PayloadQuestion);
    let ops = ops_of(m.take_answer(Answer { action: OverwriteAction::Skip, apply_to_all: false }));
    assert_eq!(ops, vec![write("out/Assets/Foo.txt.meta", META)]);
}

#[test]
fn an_answer_for_all_settles_the_payload_conflict_too() {
    let mut m = surveyed(OverwriteMode::Ask, file_record());
    let a = m.take_listing(names(&["Foo.txt", "Foo.txt.meta"]));
    assert!(matches!(a, Action::Ask { .. }));
    let ops = ops_of(m.take_answer(Answer { action: OverwriteAction::Rename, apply_to_all: true }));
    assert_eq!(
        ops,
        vec![
            write("out/Assets/Foo_copy1.txt.meta", META),
            mv("stage/abc", "out/Assets/Foo_copy1.txt"),
        ]
    );
    assert_eq!(m.resolver.sticky, Some(OverwriteAction::Rename));
}

#[test]
fn folder_record_writes_its_sidecar_once() {
    let mut m = Rebuild::new(
        vec![folder_record(), folder_record()],
        "out".to_string(),
        "stage".to_string(),
        OverwriteMode::Overwrite,
    );
    let a = m.start_record(false);
    assert_eq!(a, Action::Survey { create: "out/Assets/Dir".to_string(), list: "out/Assets".to_string() });
    let ops = ops_of(m.take_listing(names(&[])));
    assert_eq!(ops, vec![write("out/Assets/Dir.meta", "guid: dir1\nfolderAsset: yes\n")]);
    assert!(matches!(m.start_record(false), Action::Survey { .. }));
    let ops = ops_of(m.take_listing(names(&["Dir", "Dir.meta"])));
    assert!(ops.is_empty());
}

#[test]
fn top_level_record_lands_in_the_root() {
    let rec = AssetRecord {
        id: "t".to_string(),
        pathname: "Top.txt".to_string(),
        meta: "guid: t\n".to_string(),
        is_directory: false,
    };
    let mut m = Rebuild::new(vec![rec], "out".to_string(), "stage".to_string(), OverwriteMode::Skip);
    assert_eq!(m.start_record(false), Action::Survey { create: "out".to_string(), list: "out".to_string() });
    let ops = ops_of(m.take_listing(names(&[])));
    assert_eq!(ops, vec![write("out/Top.txt.meta", "guid: t\n"), mv("stage/t", "out/Top.txt")]);
}

#[test]
fn cancelling_before_a_record_leaves_the_rest_unprocessed() {
    let mut m = Rebuild::new(
        vec![folder_record(), file_record()],
        "out".to_string(),
        "stage".to_string(),
        OverwriteMode::Overwrite,
    );
    assert!(matches!(m.start_record(false), Action::Survey { .. }));
    let _ = ops_of(m.take_listing(names(&[])));
    assert_eq!(m.start_record(true), Action::Stopped { outcome: Outcome::Cancelled });
    assert_eq!(m.next, 1);
    assert_eq!(m.stage, Stage::Done);
}

#[test]
fn cancelling_at_once_processes_nothing() {
    let mut m = Rebuild::new(vec![file_record()], "out".to_string(), "stage".to_string(), OverwriteMode::Rename);
    assert_eq!(m.start_record(true), Action::Stopped { outcome: Outcome::Cancelled });
    assert_eq!(m.next, 0);
}
