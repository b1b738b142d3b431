use idevice::backup::paths::{BackupPath, JournalPath, OpId};

fn lossy(bytes: &[u8]) -> String {
    String::from_utf8_lossy(bytes).into_owned()
}

#[test]
fn backup_path_accepts_relative_paths_and_empty_root() {
    assert_eq!(
        lossy(BackupPath::parse("ab/cdef").unwrap().as_relative_path()),
        "ab/cdef"
    );
    assert_eq!(BackupPath::parse("").unwrap().as_relative_path(), b"");
}

#[test]
fn backup_item_path_rejects_root_paths() {
    for input in ["", ".", "./"] {
        assert!(BackupPath::parse_item(input).is_err(), "{input:?}");
    }
}

#[test]
fn backup_path_rejects_escape_and_platform_ambiguous_paths() {
    for input in [
        "/tmp/file",
        "../Manifest.plist",
        "ab/../../outside",
        "C:\\Users\\name\\file",
        "ab\\cdef",
        "ab/\0/cdef",
        ".",
        "./",
        ".idevice-journal",
        ".idevice-journal/journal.jsonl",
    ] {
        assert!(BackupPath::parse(input).is_err(), "{input:?}");
    }
}

#[test]
fn journal_path_accepts_only_tmp_and_old_relative_paths() {
    assert_eq!(
        lossy(
            JournalPath::parse_recorded("tmp/0000000000000001.tmp")
                .unwrap()
                .as_relative_path()
        ),
        "tmp/0000000000000001.tmp"
    );
    assert!(JournalPath::parse_recorded("Manifest.plist").is_err());
    assert!(JournalPath::parse_recorded("../old/file").is_err());
}

#[test]
fn backup_path_normalizes_dot_segments_and_slashes() {
    assert_eq!(
        lossy(BackupPath::parse("ab//cd/./ef/").unwrap().as_relative_path()),
        "ab/cd/ef"
    );
    assert!(BackupPath::parse("./ab").is_err());
}

#[test]
fn journal_paths_are_zero_padded_operation_ids() {
    assert_eq!(
        lossy(JournalPath::tmp(OpId(26)).as_relative_path()),
        "tmp/0000000000000026.tmp"
    );
    assert_eq!(
        lossy(JournalPath::old_path(OpId(7)).as_relative_path()),
        "old/0000000000000007.old"
    );
    assert!(JournalPath::parse_recorded("old/0000000000000007.old").is_ok());
}

#[test]
fn paths_join_onto_their_directories() {
    let p = BackupPath::parse("ab/cdef").unwrap();
    assert_eq!(lossy(&p.join_to_backup_dir(b"/Backups/UDID")), "/Backups/UDID/ab/cdef");
    assert_eq!(lossy(&p.join_to_backup_dir(b"/Backups/UDID/")), "/Backups/UDID/ab/cdef");
    assert_eq!(lossy(&p.join_to_backup_dir(b"")), "ab/cdef");
    let root = BackupPath::parse("").unwrap();
    assert_eq!(lossy(&root.join_to_backup_dir(b"/Backups/UDID")), "/Backups/UDID/");
    let j = JournalPath::tmp(OpId(1));
    assert_eq!(
        lossy(&j.join_to_journal_dir(b"/Backups/UDID/.idevice-journal")),
        "/Backups/UDID/.idevice-journal/tmp/0000000000000001.tmp"
    );
}
