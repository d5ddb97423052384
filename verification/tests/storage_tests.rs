use ephemeral_file_share::encryption::{encrypt, generate_key, EncryptedFile};
use ephemeral_file_share::storage::Storage;
use ephemeral_file_share::time::Timestamp;

fn file(id: &str, filename: &str, expires_at: Option<Timestamp>) -> EncryptedFile {
    let key = generate_key().unwrap();
    let (encrypted_data, nonce) = encrypt(b"test data", &key).unwrap();
    EncryptedFile {
        id: id.to_string(),
        filename: filename.to_string(),
        size: 8,
        encrypted_data,
        nonce,
        created_at: Timestamp::now(),
        expires_at,
    }
}

#[test]
fn test_store_and_retrieve() {
    let mut storage = Storage::new();
    storage.store(file("test-123", "test.txt", None));

    let retrieved = storage.get("test-123");
    assert!(retrieved.is_some());
    assert_eq!(retrieved.unwrap().filename, "test.txt");
}

#[test]
fn test_expired_file() {
    let mut storage = Storage::new();
    let past = Timestamp::now().plus_minutes(-1); // Already expired
    storage.store(file("expired-456", "expired.txt", past));

    let retrieved = storage.get("expired-456");
    assert!(retrieved.is_none());
}

#[test]
fn test_delete() {
    let mut storage = Storage::new();
    storage.store(file("delete-789", "delete.txt", None));
    assert!(storage.file_exists("delete-789"));

    let deleted = storage.delete("delete-789");
    assert!(deleted);
    assert!(!storage.file_exists("delete-789"));
}

#[test]
fn delete_of_missing_file_reports_false() {
    let mut storage = Storage::new();
    assert!(!storage.delete("nothing"));
    assert_eq!(storage.count(), 0);
}

#[test]
fn store_replaces_file_with_same_id() {
    let mut storage = Storage::new();
    storage.store(file("a", "first.txt", None));
    storage.store(file("b", "other.txt", None));
    storage.store(file("a", "second.txt", None));
    assert_eq!(storage.count(), 2);
    assert_eq!(storage.get("a").unwrap().filename, "second.txt");
    assert_eq!(storage.get("b").unwrap().filename, "other.txt");
}

#[test]
fn expiry_is_judged_at_the_given_instant() {
    let mut storage = Storage::new();
    let t0 = Timestamp::from_parts(1_000, 0).unwrap();
    let expiry = t0.plus_minutes(10).unwrap();
    storage.store(file("x", "x.txt", Some(expiry.copy())));
    assert!(storage.get_at("x", &t0).is_some());
    assert!(storage.exists_at("x", &expiry));
    let just_after = Timestamp::from_parts(expiry.secs(), 1).unwrap();
    assert!(storage.get_at("x", &just_after).is_none());
    assert!(!storage.exists_at("x", &just_after));
}

#[test]
fn expired_files_are_still_counted_and_deletable() {
    let mut storage = Storage::new();
    let past = Timestamp::now().plus_minutes(-5);
    storage.store(file("old", "old.txt", past));
    assert_eq!(storage.count(), 1);
    assert!(storage.get("old").is_none());
    assert!(storage.delete("old"));
    assert_eq!(storage.count(), 0);
}

#[test]
fn sweep_removes_only_expired_files() {
    let mut storage = Storage::new();
    let now = Timestamp::from_parts(10_000, 0).unwrap();
    storage.store(file("gone", "a", now.plus_minutes(-1)));
    storage.store(file("kept", "b", now.plus_minutes(1)));
    storage.store(file("forever", "c", None));
    storage.store(file("edge", "d", Some(now.copy())));
    storage.remove_expired(&now);
    assert_eq!(storage.count(), 3);
    assert!(storage.get_at("gone", &now).is_none());
    assert!(storage.get_at("kept", &now).is_some());
    assert!(storage.get_at("forever", &now).is_some());
    assert!(storage.get_at("edge", &now).is_some());
    assert!(!storage.delete("gone"));
}

#[test]
fn retrieved_file_keeps_its_contents() {
    let mut storage = Storage::new();
    let f = file("same", "same.txt", None);
    let data = f.encrypted_data.clone();
    let nonce = f.nonce.clone();
    storage.store(f);
    let got = storage.get("same").unwrap();
    assert_eq!(got.id, "same");
    assert_eq!(got.size, 8);
    assert_eq!(got.encrypted_data, data);
    assert_eq!(got.nonce, nonce);
    assert!(got.expires_at.is_none());
}

#[test]
fn cleanup_interval_is_one_minute() {
    assert_eq!(Storage::new().cleanup_interval(), 60);
}
