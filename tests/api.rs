use turingarena::api::{ApiConfig, AuthError, ContestArgs, MutationOk};

fn s(x: &str) -> String {
    x.to_string()
}

#[test]
fn builders_set_one_field() {
    let c = ApiConfig::default();
    assert!(!c.skip_auth);
    assert!(c.secret.is_none());
    assert_eq!(c.database_url, "");
    let c = c.with_secret(Some(vec![1, 2])).with_skip_auth(true).with_database_url(s("db"));
    assert!(c.skip_auth);
    assert_eq!(c.secret, Some(vec![1, 2]));
    assert_eq!(c.database_url, "db");
    let c = c.with_args(ContestArgs { database_url: s("./database.sqlite3") });
    assert_eq!(c.database_url, "./database.sqlite3");
    assert!(MutationOk::ok());
}

#[test]
fn admin_needs_skipped_auth() {
    assert_eq!(ApiConfig::default().authorize_admin(), Err(AuthError::Forbidden));
    assert_eq!(ApiConfig::default().with_skip_auth(true).authorize_admin(), Ok(()));
}

#[test]
fn user_authorization() {
    let c = ApiConfig::default().with_secret(Some(vec![9]));
    assert_eq!(c.authorize_user(&None, &Some(s("u"))), Err(AuthError::AuthenticationRequired));
    assert_eq!(c.authorize_user(&Some(s("v")), &Some(s("u"))), Err(AuthError::ForbiddenForUser));
    assert_eq!(c.authorize_user(&Some(s("u")), &Some(s("u"))), Ok(()));
    assert_eq!(c.authorize_user(&None, &None), Ok(()));
    let open = ApiConfig::default();
    assert_eq!(open.authorize_user(&None, &Some(s("u"))), Ok(()));
    let skip = c.with_skip_auth(true);
    assert_eq!(skip.authorize_user(&Some(s("v")), &Some(s("u"))), Ok(()));
}
