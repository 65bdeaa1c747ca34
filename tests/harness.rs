use rpf::harness::{
    is_symlink_kind, link_kind_for, link_line, outcome_line, removal_for, Action, EntryKind,
    LinkKind, Removal,
};
use rpf::PathBuf;

#[test]
fn removal_by_kind() {
    assert_eq!(removal_for(EntryKind::Dir), Removal::Tree);
    assert_eq!(removal_for(EntryKind::File), Removal::Entry);
    assert_eq!(removal_for(EntryKind::Symlink), Removal::Entry);
    assert_eq!(removal_for(EntryKind::Other), Removal::Entry);
}

#[test]
fn link_primitive_by_target_kind() {
    assert_eq!(link_kind_for(EntryKind::File), Some(LinkKind::File));
    assert_eq!(link_kind_for(EntryKind::Dir), Some(LinkKind::Dir));
    assert_eq!(link_kind_for(EntryKind::Symlink), None);
    assert_eq!(link_kind_for(EntryKind::Other), None);
}

#[test]
fn symlink_kind_needs_an_entry() {
    assert!(!is_symlink_kind(None));
    assert!(!is_symlink_kind(Some(EntryKind::File)));
    assert!(!is_symlink_kind(Some(EntryKind::Dir)));
    assert!(is_symlink_kind(Some(EntryKind::Symlink)));
    assert!(is_symlink_kind(Some(EntryKind::Other)));
}

#[test]
fn outcome_lines() {
    let path = PathBuf::from("scratch");
    assert_eq!(outcome_line(Action::CreateDir, &path, true),
        "test: created directory '\u{1b}[32mscratch\u{1b}[0m'");
    assert_eq!(outcome_line(Action::RemoveDir, &path, true),
        "test: removed directory '\u{1b}[32mscratch\u{1b}[0m'");
    assert_eq!(outcome_line(Action::CreateFile, &path, false),
        "test: unable to create file '\u{1b}[31mscratch\u{1b}[0m'");
    assert_eq!(outcome_line(Action::RemoveFile, &path, false),
        "test: unable to remove file '\u{1b}[31mscratch\u{1b}[0m'");
}

#[test]
fn link_report_line() {
    assert_eq!(link_line(&PathBuf::from("LICENSE"), &PathBuf::from("test-symlink")),
        "\u{1b}[1mLICENSE\u{1b}[0m symlinked to \u{1b}[1mtest-symlink\u{1b}[0m");
}
