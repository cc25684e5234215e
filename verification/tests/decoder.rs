use ruskey::{Description, Error, EINVAL};

#[test]
fn test_parse_five_fields() {
    let d = Description::parse("user;1000;1001;3f010000;hello").unwrap();
    assert_eq!(d.type_, "user");
    assert_eq!(d.uid, 1000);
    assert_eq!(d.gid, 1001);
    assert_eq!(d.perms, 0x3f010000);
    assert_eq!(d.description, "hello");
}

#[test]
fn test_parse_keyring_record() {
    let d = Description::parse("keyring;0;65534;3f1f0000;_uid.0").unwrap();
    assert_eq!(d.type_, "keyring");
    assert_eq!(d.uid, 0);
    assert_eq!(d.gid, 65534);
    assert_eq!(d.perms, 0x3f1f0000);
    assert_eq!(d.description, "_uid.0");
}

#[test]
fn test_parse_too_few_fields() {
    let e = Description::parse("user;0;0;1f").unwrap_err();
    assert_eq!(e, Error { code: EINVAL });
    assert!(Description::parse("").is_err());
    assert!(Description::parse("user").is_err());
    assert!(Description::parse(";;;").is_err());
}

#[test]
fn test_parse_extra_leading_fields() {
    // The kernel prepends new fields at the front; the trailing five decide.
    let d = Description::parse("future;stuff;user;1;2;1f;desc").unwrap();
    assert_eq!(d.type_, "user");
    assert_eq!(d.uid, 1);
    assert_eq!(d.gid, 2);
    assert_eq!(d.perms, 0x1f);
    assert_eq!(d.description, "desc");
}

#[test]
fn test_parse_bad_numeric_fields() {
    assert!(Description::parse("user;abc;0;1f;d").is_err());
    assert!(Description::parse("user;0;abc;1f;d").is_err());
    assert!(Description::parse("user;0;0;zz;d").is_err());
    assert!(Description::parse("user;;0;1f;d").is_err());
    assert!(Description::parse("user;-1;0;1f;d").is_err());
}

#[test]
fn test_parse_numeric_overflow() {
    // One past u32::MAX must be rejected; u32::MAX itself is fine.
    assert!(Description::parse("user;4294967296;0;1f;d").is_err());
    let d = Description::parse("user;4294967295;0;ffffffff;d").unwrap();
    assert_eq!(d.uid, u32::MAX);
    assert_eq!(d.perms, u32::MAX);
    assert!(Description::parse("user;0;0;100000000;d").is_err());
}

#[test]
fn test_parse_hex_case_insensitive() {
    let d = Description::parse("user;0;0;3FaB;d").unwrap();
    assert_eq!(d.perms, 0x3fab);
}

#[test]
fn test_parse_empty_type_and_description() {
    let d = Description::parse(";0;0;0;").unwrap();
    assert_eq!(d.type_, "");
    assert_eq!(d.description, "");
    assert_eq!(d.perms, 0);
}
