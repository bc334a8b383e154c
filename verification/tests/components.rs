use keyhouse_sync::checkpoint::{normalize_checkpoint, CheckpointStore};
use keyhouse_sync::config::LogContext;
use keyhouse_sync::diff::ChangeKind;
use keyhouse_sync::driver::pick_first_commit;
use keyhouse_sync::fetcher::{decode_content, ref_for_kind, resolve_content, DecodeError};
use keyhouse_sync::identity::{group_db_lists, select_group};

#[test]
fn ref_selection_deleted_kinds_use_base() {
    assert_eq!(ref_for_kind(ChangeKind::Deleted, "abc123"), "abc123");
    assert_eq!(ref_for_kind(ChangeKind::UserDeleted, "abc123"), "abc123");
}

#[test]
fn ref_selection_other_kinds_use_tracked_branch() {
    assert_eq!(ref_for_kind(ChangeKind::Added, "abc123"), "build");
    assert_eq!(ref_for_kind(ChangeKind::UserAdded, "abc123"), "build");
    assert_eq!(ref_for_kind(ChangeKind::Modified, "abc123"), "build");
    assert_eq!(ref_for_kind(ChangeKind::UserModified, "abc123"), "build");
}

#[test]
fn decode_plain_base64() {
    assert_eq!(decode_content("aGVsbG8="), Ok("hello".to_string()));
}

#[test]
fn decode_strips_embedded_newlines() {
    assert_eq!(decode_content("aGVs\nbG8=\n"), Ok("hello".to_string()));
}

#[test]
fn decode_rejects_bad_base64() {
    assert_eq!(decode_content("!!!not base64!!!"), Err(DecodeError::BadBase64));
}

#[test]
fn decode_rejects_invalid_utf8() {
    assert_eq!(decode_content("/w=="), Err(DecodeError::BadUtf8));
}

#[test]
fn resolve_content_soft_failures_are_skips() {
    assert_eq!(resolve_content(false, Some("aGVsbG8=".to_string())), Ok(None));
    assert_eq!(resolve_content(true, None), Ok(None));
}

#[test]
fn resolve_content_decodes_payload() {
    assert_eq!(
        resolve_content(true, Some("aGVsbG8=".to_string())),
        Ok(Some("hello".to_string()))
    );
    assert_eq!(
        resolve_content(true, Some("/w==".to_string())),
        Err(DecodeError::BadUtf8)
    );
}

#[test]
fn checkpoint_round_trip() {
    let mut store = CheckpointStore::new();
    assert_eq!(store.load(), None);
    store.save("abc123".to_string());
    assert_eq!(store.load(), Some("abc123".to_string()));
    store.save("def456".to_string());
    assert_eq!(store.load(), Some("def456".to_string()));
}

#[test]
fn blank_checkpoints_normalize_to_none() {
    assert_eq!(normalize_checkpoint(None), None);
    assert_eq!(normalize_checkpoint(Some("".to_string())), None);
    assert_eq!(normalize_checkpoint(Some(" \t\r\n".to_string())), None);
    assert_eq!(
        normalize_checkpoint(Some("abc123\n".to_string())),
        Some("abc123\n".to_string())
    );
}

#[test]
fn select_group_prefers_sudo_then_wheel() {
    assert_eq!(select_group("sudo", true, true, false), Some("sudo".to_string()));
    assert_eq!(select_group("sudo", false, true, false), Some("wheel".to_string()));
    assert_eq!(select_group("sudo", false, false, false), None);
}

#[test]
fn select_group_requires_named_group() {
    assert_eq!(select_group("dev", false, false, true), Some("dev".to_string()));
    assert_eq!(select_group("dev", true, true, false), None);
}

#[test]
fn group_database_scan_matches_whole_names() {
    let db = "root:x:0:\nwheel:x:10:alice\nwheelhouse:x:11:\n";
    assert!(group_db_lists(db, "wheel"));
    assert!(group_db_lists(db, "root"));
    assert!(!group_db_lists(db, "whee"));
    assert!(!group_db_lists(db, "sudo"));
    assert!(!group_db_lists("", "wheel"));
}

#[test]
fn unicode_whitespace_checkpoint_is_blank() {
    assert_eq!(normalize_checkpoint(Some("\u{a0}\u{2003}\u{3000}".to_string())), None);
}

#[test]
fn first_commit_of_listing() {
    assert_eq!(pick_first_commit(&vec![]), None);
    assert_eq!(
        pick_first_commit(&vec!["a1".to_string(), "b2".to_string()]),
        Some("a1".to_string())
    );
}

#[test]
fn log_target_set_once_then_read() {
    let mut ctx = LogContext::new();
    ctx.set_log_target("keyhouse-run-7".to_string());
    assert_eq!(ctx.get_log_target(), "keyhouse-run-7");
}
