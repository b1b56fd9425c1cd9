use endfield_accounts::fingerprint::get_current_fingerprint;
use endfield_accounts::store::{AccountError, AccountStore, CredFiles};

const ABC_SHA256: &str = "ba7816bf8f01cfea414140de5dae2223b00361a396177a9cb410ff61f20015ad";

fn live(primary: &[u8]) -> CredFiles {
    CredFiles { primary: Some(primary.to_vec()), companion: Some(b"crc".to_vec()) }
}

fn capture(
    store: &mut AccountStore,
    content: &CredFiles,
    note: &str,
    id: &str,
    folder: &str,
) -> Result<endfield_accounts::store::AccountInfo, AccountError> {
    store.backup_account(
        content,
        note.to_string(),
        false,
        id.to_string(),
        folder.to_string(),
        "2024-01-01 00:00:00".to_string(),
    )
}

#[test]
fn capture_prepends_new_record() {
    let mut store = AccountStore::new();
    let rec_a = capture(&mut store, &live(b"alpha"), "A", "id-a", "fa").unwrap();
    let rec_b = capture(&mut store, &live(b"beta"), "B", "id-b", "fb").unwrap();
    {
        let list = store.list_accounts();
        assert_eq!(list.len(), 2);
        assert_eq!(list[0].id, rec_b.id);
        assert_eq!(list[1].id, rec_a.id);
        assert_eq!(list[0].display_name, "B".to_string());
        assert_eq!(list[1].display_name, "A".to_string());
    }
    let rec_c = capture(&mut store, &live(b"gamma"), "C", "id-c", "fc").unwrap();
    let list = store.list_accounts();
    assert_eq!(list.len(), 3);
    assert_eq!(list[0].id, rec_c.id);
    assert_eq!(list[1].id, rec_b.id);
    assert_eq!(list[2].id, rec_a.id);
}

#[test]
fn capture_fills_record_fields() {
    let mut store = AccountStore::new();
    let rec = capture(&mut store, &live(b"abc"), "mine", "id-1", "folder-1").unwrap();
    assert_eq!(rec.id, "id-1".to_string());
    assert_eq!(rec.folder_name, "folder-1".to_string());
    assert_eq!(rec.display_name, "mine".to_string());
    assert_eq!(rec.finger_print, ABC_SHA256.to_string());
    assert_eq!(rec.last_backup_time, "2024-01-01 00:00:00".to_string());
    assert!(store.has_backup_key(&"folder-1".to_string()));
}

#[test]
fn duplicate_capture_fails_and_rolls_back() {
    let mut store = AccountStore::new();
    capture(&mut store, &live(b"same"), "first", "id-1", "f1").unwrap();
    let r = capture(&mut store, &live(b"same"), "second", "id-2", "f2");
    assert_eq!(r.unwrap_err(), AccountError::DuplicateAccount);
    assert_eq!(store.list_accounts().len(), 1);
    assert_eq!(store.backups.len(), 1);
    assert!(!store.has_backup_key(&"f2".to_string()));
}

#[test]
fn absent_file_captures_are_not_duplicates() {
    let mut store = AccountStore::new();
    let none = CredFiles { primary: None, companion: None };
    let r1 = capture(&mut store, &none, "one", "id-1", "f1").unwrap();
    let r2 = capture(&mut store, &none, "two", "id-2", "f2").unwrap();
    assert_eq!(r1.finger_print, String::new());
    assert_eq!(r2.finger_print, String::new());
    assert_eq!(store.list_accounts().len(), 2);
}

#[test]
fn running_game_blocks_capture() {
    let mut store = AccountStore::new();
    let r = store.backup_account(
        &live(b"alpha"),
        "A".to_string(),
        true,
        "id-a".to_string(),
        "fa".to_string(),
        "2024-01-01 00:00:00".to_string(),
    );
    assert_eq!(r.unwrap_err(), AccountError::GameRunning);
    assert_eq!(store.list_accounts().len(), 0);
    assert_eq!(store.backups.len(), 0);
}

#[test]
fn running_game_blocks_switch() {
    let mut store = AccountStore::new();
    capture(&mut store, &live(b"alpha"), "A", "id-a", "fa").unwrap();
    let mut current = live(b"other");
    let r = store.switch_account(&mut current, &"fa".to_string(), true);
    assert_eq!(r.unwrap_err(), AccountError::GameRunning);
    assert_eq!(current.primary, Some(b"other".to_vec()));
}

#[test]
fn switch_round_trip_restores_fingerprint() {
    let mut store = AccountStore::new();
    let rec_a = capture(&mut store, &live(b"abc"), "A", "id-a", "fa").unwrap();
    capture(&mut store, &live(b"beta"), "B", "id-b", "fb").unwrap();
    let mut current = live(b"beta");
    store.switch_account(&mut current, &rec_a.folder_name, false).unwrap();
    assert_eq!(get_current_fingerprint(&current), rec_a.finger_print);
    assert_eq!(get_current_fingerprint(&current), ABC_SHA256.to_string());
}

#[test]
fn switch_restores_files_absent_in_backup_as_absent() {
    let mut store = AccountStore::new();
    let partial = CredFiles { primary: Some(b"p".to_vec()), companion: None };
    capture(&mut store, &partial, "A", "id-a", "fa").unwrap();
    let mut current = live(b"full");
    store.switch_account(&mut current, &"fa".to_string(), false).unwrap();
    assert_eq!(current.primary, Some(b"p".to_vec()));
    assert_eq!(current.companion, None);
}

#[test]
fn switch_with_missing_backup_fails_untouched() {
    let mut store = AccountStore::new();
    capture(&mut store, &live(b"alpha"), "A", "id-a", "fa").unwrap();
    let mut current = live(b"other");
    let r = store.switch_account(&mut current, &"ghost".to_string(), false);
    assert_eq!(r.unwrap_err(), AccountError::BackupMissing);
    assert_eq!(current.primary, Some(b"other".to_vec()));
    assert_eq!(current.companion, Some(b"crc".to_vec()));
}

#[test]
fn delete_missing_id_is_noop_success() {
    let mut store = AccountStore::new();
    capture(&mut store, &live(b"alpha"), "A", "id-a", "fa").unwrap();
    store.delete_account(&"no-such-id".to_string()).unwrap();
    assert_eq!(store.list_accounts().len(), 1);
    assert_eq!(store.backups.len(), 1);
    assert_eq!(store.list_accounts()[0].display_name, "A".to_string());
}

#[test]
fn delete_removes_record_and_backup() {
    let mut store = AccountStore::new();
    capture(&mut store, &live(b"alpha"), "A", "id-a", "fa").unwrap();
    capture(&mut store, &live(b"beta"), "B", "id-b", "fb").unwrap();
    store.delete_account(&"id-a".to_string()).unwrap();
    let list = store.list_accounts();
    assert_eq!(list.len(), 1);
    assert_eq!(list[0].id, "id-b".to_string());
    assert!(!store.has_backup_key(&"fa".to_string()));
    assert!(store.has_backup_key(&"fb".to_string()));
}

#[test]
fn rename_missing_id_is_noop_success() {
    let mut store = AccountStore::new();
    capture(&mut store, &live(b"alpha"), "A", "id-a", "fa").unwrap();
    store.rename_account(&"no-such-id".to_string(), "newer".to_string()).unwrap();
    assert_eq!(store.list_accounts()[0].display_name, "A".to_string());
}

#[test]
fn rename_changes_only_the_label() {
    let mut store = AccountStore::new();
    let rec = capture(&mut store, &live(b"alpha"), "A", "id-a", "fa").unwrap();
    capture(&mut store, &live(b"beta"), "B", "id-b", "fb").unwrap();
    store.rename_account(&"id-a".to_string(), "renamed".to_string()).unwrap();
    let list = store.list_accounts();
    assert_eq!(list[1].display_name, "renamed".to_string());
    assert_eq!(list[1].id, rec.id);
    assert_eq!(list[1].folder_name, rec.folder_name);
    assert_eq!(list[1].finger_print, rec.finger_print);
    assert_eq!(list[1].last_backup_time, rec.last_backup_time);
    assert_eq!(list[0].display_name, "B".to_string());
}

#[test]
fn error_messages_are_nonempty() {
    let kinds = [
        AccountError::GameRunning,
        AccountError::DuplicateAccount,
        AccountError::BackupMissing,
        AccountError::NotFound,
        AccountError::IoFailure,
        AccountError::ParseFailure,
    ];
    for k in kinds {
        assert!(!k.message().is_empty());
    }
}
