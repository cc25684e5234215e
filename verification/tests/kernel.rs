//! Scenarios against the running kernel's key facility. Each test works in
//! its own thread-specific keyring, which the test runner's one-thread-per-
//! test layout keeps isolated.

use linux_keyutils::{KeyRing, KeyRingIdentifier, KeySerialId, KeyType};
use ruskey::{partition_records, Key, Keyring, SpecialKeyring};

/// Creates (if needed) and returns the calling thread's keyring, both as the
/// backing crate's object (for operations this library leaves to callers) and
/// as this library's handle on the reserved thread serial.
fn thread_ring() -> (KeyRing, Keyring) {
    let lk = KeyRing::from_special_id(KeyRingIdentifier::Thread, true).unwrap();
    (lk, Keyring::new(SpecialKeyring::Thread.serial()))
}

/// Rebuilds a child's metadata record text from the backing crate's parsed
/// fields, for feeding the library's record classification.
fn record_of(serial: i32) -> String {
    let m = linux_keyutils::Key::from_id(KeySerialId(serial)).metadata().unwrap();
    let tag = match m.get_type() {
        KeyType::KeyRing => "keyring",
        KeyType::User => "user",
        KeyType::Logon => "logon",
        KeyType::BigKey => "big_key",
    };
    format!(
        "{};{};{};{:x};{}",
        tag,
        m.get_uid(),
        m.get_gid(),
        m.get_perms().bits(),
        m.get_description()
    )
}

/// The read pipeline as an embedder composes it: verified serial fetch and
/// decode, a record per child, verified classification and partition.
fn read_children(ring: &Keyring) -> Result<(Vec<Key>, Vec<Keyring>), ruskey::Error> {
    let ids = ring.read_serials()?;
    let records: Vec<String> = ids.iter().map(|id| record_of(*id)).collect();
    partition_records(&ids, &records)
}

#[test]
fn test_payload_roundtrip() {
    let (lk, _ring) = thread_ring();
    let created = lk.add_key("ruskey:roundtrip", b"payload").unwrap();
    let key = Key::new(created.get_id().as_raw_id());
    assert_eq!(key.read().unwrap(), b"payload".to_vec());
    key.invalidate().unwrap();
}

#[test]
fn test_update_reflects_on_old_handle() {
    let (lk, _ring) = thread_ring();
    let created = lk.add_key("ruskey:update", b"payload").unwrap();
    let old_handle = Key::new(created.get_id().as_raw_id());
    let mut new_handle = Key::new(created.get_id().as_raw_id());
    new_handle.update(b"new_payload").unwrap();
    assert_eq!(old_handle.read().unwrap(), b"new_payload".to_vec());
    assert_eq!(new_handle.read().unwrap(), b"new_payload".to_vec());
    // Re-adding the same description updates the same key in place.
    let again = lk.add_key("ruskey:update", b"third").unwrap();
    assert_eq!(again.get_id().as_raw_id(), created.get_id().as_raw_id());
    assert_eq!(old_handle.read().unwrap(), b"third".to_vec());
    old_handle.invalidate().unwrap();
}

#[test]
fn test_read_partitions_children() {
    let (lk, ring) = thread_ring();
    lk.clear().unwrap();
    let a = lk.add_key("ruskey:child_a", b"a").unwrap();
    let b = lk.add_key("ruskey:child_b", b"b").unwrap();
    let (keys, rings) = read_children(&ring).unwrap();
    assert_eq!(rings.len(), 0);
    let mut got: Vec<i32> = keys.iter().map(|k| k.serial()).collect();
    got.sort();
    let mut want = vec![a.get_id().as_raw_id(), b.get_id().as_raw_id()];
    want.sort();
    assert_eq!(got, want);
    lk.clear().unwrap();
}

#[test]
fn test_clear_empties_read() {
    let (lk, ring) = thread_ring();
    lk.add_key("ruskey:cleared", b"x").unwrap();
    lk.clear().unwrap();
    let (keys, rings) = read_children(&ring).unwrap();
    assert_eq!(keys.len(), 0);
    assert_eq!(rings.len(), 0);
}

#[test]
fn test_unlink_removes_child() {
    let (lk, ring) = thread_ring();
    lk.clear().unwrap();
    let created = lk.add_key("ruskey:unlinked", b"x").unwrap();
    let serial = created.get_id().as_raw_id();
    assert!(ring.read_serials().unwrap().contains(&serial));
    lk.unlink_key(created).unwrap();
    assert!(!ring.read_serials().unwrap().contains(&serial));
}

#[test]
fn test_invalidate_makes_operations_fail() {
    let (lk, _ring) = thread_ring();
    let created = lk.add_key("ruskey:invalidated", b"x").unwrap();
    let serial = created.get_id().as_raw_id();
    Key::new(serial).invalidate().unwrap();
    // Operations on the stale serial fail with a kernel-reported error.
    assert!(Key::new(serial).read().is_err());
    let mut stale = Key::new(serial);
    assert!(stale.update(b"y").is_err());
}

#[test]
fn test_revoke_makes_operations_fail() {
    let (lk, _ring) = thread_ring();
    let created = lk.add_key("ruskey:revoked", b"x").unwrap();
    let serial = created.get_id().as_raw_id();
    Key::new(serial).revoke().unwrap();
    let e = Key::new(serial).read().unwrap_err();
    assert_eq!(e.code(), ruskey::EKEYREVOKED);
    lk.unlink_key(created).unwrap();
}

#[test]
fn test_attribute_operations_succeed() {
    let (lk, _ring) = thread_ring();
    let created = lk.add_key("ruskey:attrs", b"x").unwrap();
    let mut key = Key::new(created.get_id().as_raw_id());
    // Possessor and user keep everything; read must still work afterwards.
    key.set_permissions(0x3f3f0000).unwrap();
    // Re-owning to the current owner needs no extra capability.
    let meta = created.metadata().unwrap();
    key.chown(meta.get_uid()).unwrap();
    key.chgrp(meta.get_gid()).unwrap();
    key.set_timeout(3600).unwrap();
    assert_eq!(key.read().unwrap(), b"x".to_vec());
    key.invalidate().unwrap();
}

#[test]
fn test_keyring_attribute_operations() {
    let (_lk, mut ring) = thread_ring();
    ring.set_permissions(0x3f3f0000).unwrap();
    ring.set_timeout(0).unwrap();
}

#[test]
fn test_manage_without_pending_request_fails() {
    let (lk, _ring) = thread_ring();
    let created = lk.add_key("ruskey:manage", b"x").unwrap();
    let mut key = Key::new(created.get_id().as_raw_id());
    // No pending construction request is addressed to this thread.
    assert!(key.manage().is_err());
    key.invalidate().unwrap();
}

#[test]
fn test_read_on_missing_object_fails() {
    let ring = Keyring::new(0x7ccc_0001);
    assert!(ring.read_serials().is_err());
}

#[test]
fn test_end_to_end_scenario() {
    let (lk, ring) = thread_ring();
    lk.clear().unwrap();
    let created = lk.add_key("ruskey:test", b"payload").unwrap();
    let serial = created.get_id().as_raw_id();
    let key = Key::new(serial);
    assert_eq!(key.read().unwrap(), b"payload".to_vec());

    // The key is among the ring's children, with no child keyrings.
    let (keys, rings) = read_children(&ring).unwrap();
    assert_eq!(rings.len(), 0);
    assert_eq!(keys.len(), 1);
    assert_eq!(keys[0].serial(), serial);

    // Updating through one handle is observed through every handle.
    let mut fresh = Key::new(serial);
    fresh.update(b"new_payload").unwrap();
    assert_eq!(key.read().unwrap(), b"new_payload".to_vec());
    assert_eq!(Key::new(serial).read().unwrap(), b"new_payload".to_vec());

    // After unlinking the key and invalidating the keyring, reads against
    // the keyring fail with a kernel-reported error.
    lk.unlink_key(created).unwrap();
    let (keys, rings) = read_children(&ring).unwrap();
    assert_eq!((keys.len(), rings.len()), (0, 0));
    ring.invalidate().unwrap();
    assert!(Keyring::new(SpecialKeyring::Thread.serial()).read_serials().is_err());
}

#[test]
fn test_add_key() {
    let (lk, _ring) = thread_ring();

    // Create the key.
    let description = "test:ruskey:add_key";
    let payload = "payload";
    let created = lk.add_key(description, payload.as_bytes()).unwrap();
    let key = Key::new(created.get_id().as_raw_id());
    assert_eq!(key.read().unwrap(), payload.as_bytes().to_vec());

    // Update the key.
    let new_payload = "new_payload";
    let updated = lk.add_key(description, new_payload.as_bytes()).unwrap();
    let updated_key = Key::new(updated.get_id().as_raw_id());
    assert_eq!(key.read().unwrap(), new_payload.as_bytes().to_vec());
    assert_eq!(updated_key.read().unwrap(), new_payload.as_bytes().to_vec());

    // Clean up.
    lk.unlink_key(created).unwrap();
    Keyring::new(SpecialKeyring::Thread.serial()).invalidate().unwrap();
}
