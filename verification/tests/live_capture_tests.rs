// These tests run the capture and switch paths that draw real identifiers
// from uuid, stamp real chrono time and scan the real process table.

use endfield_accounts::store::{AccountError, AccountStore, CredFiles};

const ABC_SHA256: &str = "ba7816bf8f01cfea414140de5dae2223b00361a396177a9cb410ff61f20015ad";

#[test]
fn capture_now_draws_fresh_identifiers() {
    let mut store = AccountStore::new();
    let live = CredFiles { primary: Some(b"abc".to_vec()), companion: None };
    // The game is not running here, the store is empty: capture must succeed.
    let rec = store.backup_account_now(&live, "first".to_string()).unwrap();
    assert_eq!(rec.id.len(), 36);
    assert_eq!(rec.folder_name.len(), 32);
    assert_eq!(rec.display_name, "first".to_string());
    assert_eq!(rec.finger_print, ABC_SHA256.to_string());
    assert!(!rec.last_backup_time.is_empty());
    assert_eq!(store.list_accounts().len(), 1);
    assert_eq!(store.list_accounts()[0].id, rec.id);

    let dup = store.backup_account_now(&live, "again".to_string());
    assert_eq!(dup.unwrap_err(), AccountError::DuplicateAccount);
    assert_eq!(store.list_accounts().len(), 1);
    assert_eq!(store.backups.len(), 1);
}

#[test]
fn switch_now_round_trip() {
    let mut store = AccountStore::new();
    let live_a = CredFiles { primary: Some(b"abc".to_vec()), companion: None };
    let live_b = CredFiles { primary: Some(b"xyz".to_vec()), companion: None };
    let rec_a = store.backup_account_now(&live_a, "A".to_string()).unwrap();
    store.backup_account_now(&live_b, "B".to_string()).unwrap();
    let mut current = live_b;
    store.switch_account_now(&mut current, &rec_a.folder_name).unwrap();
    assert_eq!(current.primary, Some(b"abc".to_vec()));
    let miss = store.switch_account_now(&mut current, &"not-a-key".to_string());
    assert_eq!(miss.unwrap_err(), AccountError::BackupMissing);
}
