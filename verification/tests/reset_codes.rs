use kovi_plugin_acl::reset_codes::{RedeemError, ResetCodeEntry, ResetCodeTable};

const SEC: i128 = 1_000_000_000;
const T0: i128 = 1_700_000_000 * SEC;

#[test]
fn issued_code_is_accepted_once() {
    let mut t = ResetCodeTable::new();
    t.issue_reset_code("a1b2c3".to_string(), 42, T0);
    assert_eq!(t.get("a1b2c3"), Some(ResetCodeEntry { admin_id: 42, created_at: T0, used: false }));
    assert_eq!(t.redeem("a1b2c3", T0 + 10 * SEC), Ok(42));
    assert_eq!(t.redeem("a1b2c3", T0 + 11 * SEC), Err(RedeemError::InvalidOrExpired));
}

#[test]
fn code_expires_after_five_minutes() {
    let mut t = ResetCodeTable::new();
    t.issue_reset_code("ffffff".to_string(), 1, T0);
    // 299.9 s is still 299 whole seconds.
    let mut u = ResetCodeTable::new();
    u.issue_reset_code("ffffff".to_string(), 1, T0);
    assert_eq!(u.redeem("ffffff", T0 + 300 * SEC - 1), Ok(1));
    assert_eq!(t.redeem("ffffff", T0 + 300 * SEC), Err(RedeemError::InvalidOrExpired));
    assert_eq!(t.get("ffffff"), None);
}

#[test]
fn unknown_code_is_refused() {
    let mut t = ResetCodeTable::new();
    t.issue_reset_code("123456".to_string(), 7, T0);
    assert_eq!(t.redeem("654321", T0), Err(RedeemError::InvalidOrExpired));
    assert_eq!(t.redeem("123456", T0), Ok(7));
}

#[test]
fn new_code_replaces_the_admins_older_code() {
    let mut t = ResetCodeTable::new();
    t.issue_reset_code("aaaaaa".to_string(), 5, T0);
    t.issue_reset_code("bbbbbb".to_string(), 6, T0);
    t.issue_reset_code("cccccc".to_string(), 5, T0 + SEC);
    assert_eq!(t.get("aaaaaa"), None);
    assert_eq!(t.redeem("aaaaaa", T0 + 2 * SEC), Err(RedeemError::InvalidOrExpired));
    assert_eq!(t.redeem("bbbbbb", T0 + 2 * SEC), Ok(6));
    assert_eq!(t.redeem("cccccc", T0 + 2 * SEC), Ok(5));
}

#[test]
fn clock_going_back_keeps_codes_live() {
    let mut t = ResetCodeTable::new();
    t.issue_reset_code("0a0a0a".to_string(), 9, T0);
    assert_eq!(t.redeem("0a0a0a", T0 - 1000 * SEC), Ok(9));
}
