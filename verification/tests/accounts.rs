use sqlite_cms::accounts::check_user_deletable;
use sqlite_cms::error::DomainError;

#[test]
fn default_admin_cannot_be_deleted() {
    for login in ["admin", "ADMIN", "Admin"] {
        match check_user_deletable(login) {
            Err(DomainError::Conflict(m)) => assert_eq!(m, "既定の admin ユーザーは削除できません"),
            other => panic!("{login}: {other:?}"),
        }
    }
    assert!(check_user_deletable("editor").is_ok());
    assert!(check_user_deletable("admin2").is_ok());
    assert!(check_user_deletable(" admin").is_ok());
}
