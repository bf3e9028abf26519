use unitypackage_extractor::ui::{
    answer_for, Answer, ConflictResolver, DialogChoice, OverwriteAction, OverwriteMode,
};

#[test]
fn fixed_modes_settle_every_conflict() {
    assert_eq!(ConflictResolver::new(OverwriteMode::Overwrite).decide(), Some(OverwriteAction::Overwrite));
    assert_eq!(ConflictResolver::new(OverwriteMode::Skip).decide(), Some(OverwriteAction::Skip));
    assert_eq!(ConflictResolver::new(OverwriteMode::Rename).decide(), Some(OverwriteAction::Rename));
}

#[test]
fn ask_mode_asks_until_an_answer_applies_to_all() {
    let mut r = ConflictResolver::new(OverwriteMode::Ask);
    assert_eq!(r.decide(), None);
    let a = r.record_answer(Answer { action: OverwriteAction::Overwrite, apply_to_all: false });
    assert_eq!(a, OverwriteAction::Overwrite);
    assert_eq!(r.decide(), None);
    let a = r.record_answer(Answer { action: OverwriteAction::Rename, apply_to_all: true });
    assert_eq!(a, OverwriteAction::Rename);
    assert_eq!(r.decide(), Some(OverwriteAction::Rename));
}

#[test]
fn dialog_choices() {
    assert_eq!(
        answer_for(DialogChoice::Yes),
        (Answer { action: OverwriteAction::Overwrite, apply_to_all: false }, false)
    );
    assert_eq!(
        answer_for(DialogChoice::NoToAll),
        (Answer { action: OverwriteAction::Skip, apply_to_all: true }, false)
    );
    assert_eq!(
        answer_for(DialogChoice::RenameAll),
        (Answer { action: OverwriteAction::Rename, apply_to_all: true }, false)
    );
    assert_eq!(
        answer_for(DialogChoice::Cancel),
        (Answer { action: OverwriteAction::Skip, apply_to_all: false }, true)
    );
    assert_eq!(
        answer_for(DialogChoice::Closed),
        (Answer { action: OverwriteAction::Skip, apply_to_all: false }, false)
    );
}
