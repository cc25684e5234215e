use ruskey::{
    check_call, check_call_ret, check_call_ret_serial, clamp_to_reported, partition_children,
    partition_records, serials_from_bytes, trim_trailing_nul, DefaultKeyring, Error, Key, Keyring,
    SpecialKeyring, EACCES, ENOKEY,
};

#[test]
fn test_check_call_maps_sentinel_to_error() {
    assert_eq!(check_call(-1, EACCES, 7u32), Err(Error { code: EACCES }));
    assert_eq!(check_call(0, EACCES, 7u32), Ok(7u32));
    assert_eq!(check_call(5, ENOKEY, ()), Ok(()));
}

#[test]
fn test_check_call_ret_passes_value_through() {
    assert_eq!(check_call_ret(-1, ENOKEY), Err(Error { code: ENOKEY }));
    assert_eq!(check_call_ret(42, ENOKEY), Ok(42));
    assert_eq!(check_call_ret(0, ENOKEY), Ok(0));
    assert_eq!(check_call_ret_serial(-1, EACCES), Err(Error { code: EACCES }));
    assert_eq!(check_call_ret_serial(99, EACCES), Ok(99));
}

#[test]
fn test_error_code_getter() {
    let e = Error { code: 22 };
    assert_eq!(e.code(), 22);
}

#[test]
fn test_special_keyring_serials() {
    assert_eq!(SpecialKeyring::Thread.serial(), -1);
    assert_eq!(SpecialKeyring::Process.serial(), -2);
    assert_eq!(SpecialKeyring::Session.serial(), -3);
    assert_eq!(SpecialKeyring::User.serial(), -4);
    assert_eq!(SpecialKeyring::UserSession.serial(), -5);
    assert_eq!(SpecialKeyring::Group.serial(), -6);
    assert_eq!(SpecialKeyring::ReqKeyAuthKey.serial(), -7);
}

#[test]
fn test_default_keyring_roundtrip() {
    let kinds = [
        DefaultKeyring::NoChange,
        DefaultKeyring::Default,
        DefaultKeyring::Thread,
        DefaultKeyring::Process,
        DefaultKeyring::Session,
        DefaultKeyring::User,
        DefaultKeyring::UserSession,
        DefaultKeyring::Group,
    ];
    for k in kinds {
        assert_eq!(DefaultKeyring::from_serial(k.serial()), Some(k));
    }
    assert_eq!(DefaultKeyring::from_serial(7), None);
    assert_eq!(DefaultKeyring::from_serial(-2), None);
}

#[test]
fn test_serials_from_bytes_little_endian() {
    let b: Vec<u8> = vec![1, 0, 0, 0, 0x10, 0x32, 0x54, 0x06];
    assert_eq!(serials_from_bytes(&b), vec![1, 0x06543210]);
}

#[test]
fn test_serials_from_bytes_negative_and_fragment() {
    let b: Vec<u8> = vec![0xff, 0xff, 0xff, 0xff, 9, 9];
    // A trailing fragment shorter than one serial is ignored.
    assert_eq!(serials_from_bytes(&b), vec![-1]);
    assert_eq!(serials_from_bytes(&Vec::new()), Vec::<i32>::new());
}

#[test]
fn test_partition_children_orders_and_splits() {
    let ids: Vec<i32> = vec![10, 20, 30, 40];
    let fl: Vec<bool> = vec![false, true, false, true];
    let (keys, rings) = partition_children(&ids, &fl);
    let key_ids: Vec<i32> = keys.iter().map(|k| k.serial()).collect();
    let ring_ids: Vec<i32> = rings.iter().map(|r| r.serial()).collect();
    assert_eq!(key_ids, vec![10, 30]);
    assert_eq!(ring_ids, vec![20, 40]);
}

#[test]
fn test_handle_identity_is_structural() {
    assert_eq!(Key::new(5), Key::new(5));
    assert_ne!(Key::new(5), Key::new(6));
    assert_eq!(Keyring::new(-1).serial(), -1);
    assert_eq!(Keyring::new(3), Keyring::new(3));
}

#[test]
fn test_partition_records_by_type_tag() {
    let ids: Vec<i32> = vec![10, 20, 30];
    let records: Vec<String> = vec![
        "user;0;0;3f010000;a".to_string(),
        "keyring;0;0;3f1f0000;sub".to_string(),
        // A type this library has never heard of is still a key, not an error.
        "asymmetric;0;0;1f;cert".to_string(),
    ];
    let (keys, rings) = partition_records(&ids, &records).unwrap();
    let key_ids: Vec<i32> = keys.iter().map(|k| k.serial()).collect();
    let ring_ids: Vec<i32> = rings.iter().map(|r| r.serial()).collect();
    assert_eq!(key_ids, vec![10, 30]);
    assert_eq!(ring_ids, vec![20]);
}

#[test]
fn test_partition_records_rejects_bad_record() {
    let ids: Vec<i32> = vec![1, 2];
    let records: Vec<String> = vec![
        "user;0;0;1f;fine".to_string(),
        "user;zz;0;1f;broken".to_string(),
    ];
    let e = partition_records(&ids, &records).unwrap_err();
    assert_eq!(e, Error { code: ruskey::EINVAL });
    assert!(partition_records(&Vec::new(), &Vec::new()).is_ok());
}

#[test]
fn test_clamp_to_reported() {
    let buf: Vec<u8> = vec![1, 2, 3, 4];
    // A report within the buffer keeps exactly that prefix.
    assert_eq!(clamp_to_reported(buf.clone(), 2), vec![1, 2]);
    assert_eq!(clamp_to_reported(buf.clone(), 0), Vec::<u8>::new());
    // A report at or beyond the buffer keeps the whole buffer.
    assert_eq!(clamp_to_reported(buf.clone(), 4), vec![1, 2, 3, 4]);
    assert_eq!(clamp_to_reported(buf, 100), vec![1, 2, 3, 4]);
}

#[test]
fn test_trim_trailing_nul() {
    assert_eq!(trim_trailing_nul(vec![b'a', b'b', 0]), vec![b'a', b'b']);
    assert_eq!(trim_trailing_nul(vec![b'a', b'b']), vec![b'a', b'b']);
    // Only the one trailing terminator is removed.
    assert_eq!(trim_trailing_nul(vec![b'a', 0, 0]), vec![b'a', 0]);
    assert_eq!(trim_trailing_nul(Vec::new()), Vec::<u8>::new());
}
