use echors::state::expires::ExpireParameter;

#[test]
fn directive_goes_by_length() {
    assert!(matches!(
        ExpireParameter::from(&1_700_000_000_123u64.to_le_bytes()),
        ExpireParameter::EXPIREAT(1_700_000_000_123)
    ));
    assert!(matches!(
        ExpireParameter::from(&50u32.to_le_bytes()),
        ExpireParameter::EXPIREIN(50)
    ));
    assert!(matches!(ExpireParameter::from(&[0]), ExpireParameter::KEEPTTL));
    assert!(matches!(ExpireParameter::from(&[9]), ExpireParameter::KEEPTTL));
    assert!(matches!(ExpireParameter::from(&[]), ExpireParameter::NONE));
    assert!(matches!(ExpireParameter::from(&[1, 2]), ExpireParameter::NONE));
    assert!(matches!(ExpireParameter::from(&[1, 2, 3]), ExpireParameter::NONE));
    assert!(matches!(ExpireParameter::from(&[1, 2, 3, 4, 5]), ExpireParameter::NONE));
    assert!(matches!(ExpireParameter::from(&[0; 9]), ExpireParameter::NONE));
}

#[test]
fn expiry_of_each_directive() {
    assert_eq!(ExpireParameter::EXPIREAT(777).get_expire_at(None, 1000), Some(777));
    assert_eq!(ExpireParameter::EXPIREAT(777).get_expire_at(Some(5), 1000), Some(777));
    assert_eq!(ExpireParameter::EXPIREIN(50).get_expire_at(None, 1000), Some(1050));
    assert_eq!(ExpireParameter::EXPIREIN(0).get_expire_at(Some(3), 1000), Some(1000));
    assert_eq!(
        ExpireParameter::EXPIREIN(u32::MAX).get_expire_at(None, 1),
        Some(u32::MAX as u64 + 1)
    );
    assert_eq!(ExpireParameter::KEEPTTL.get_expire_at(Some(4242), 1000), Some(4242));
    assert_eq!(ExpireParameter::KEEPTTL.get_expire_at(None, 1000), None);
    assert_eq!(ExpireParameter::NONE.get_expire_at(Some(4242), 1000), None);
    assert_eq!(ExpireParameter::NONE.get_expire_at(None, 1000), None);
}
