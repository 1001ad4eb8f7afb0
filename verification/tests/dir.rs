use pm3::dir;
use pm3::dir::{join_path, pm3_home, pm3_log_dir, DirError};

#[test]
fn home_dir() {
    let path = dir::home_dir(Some(String::from("/home/user")));
    assert!(path.is_ok())
}

#[test]
fn test() {
    let path = dir::home_dir(Some(String::from("/root"))).ok();
    assert!(path.is_some())
}

#[test]
fn ensure_pm3_home() {
    let home = dir::home_dir(Some(String::from("/home/user"))).unwrap();
    assert_eq!("/home/user/.pm3", pm3_home(&home));
}

#[test]
fn home_dir_keeps_value() {
    assert_eq!(Ok(String::from("/root")), dir::home_dir(Some(String::from("/root"))));
}

#[test]
fn home_dir_unset_or_empty_is_not_found() {
    assert_eq!(Err(DirError::HomeNotFound), dir::home_dir(None));
    assert_eq!(Err(DirError::HomeNotFound), dir::home_dir(Some(String::new())));
    assert_eq!(
        "platform-specific $HOME directory not found",
        DirError::HomeNotFound.message()
    );
}

#[test]
fn log_dir_is_inside_pm3_home() {
    let pm3 = pm3_home("/home/user");
    assert_eq!("/home/user/.pm3/log", pm3_log_dir(&pm3));
}

#[test]
fn join_adds_one_separator() {
    assert_eq!("/root/.pm3", join_path("/root/", ".pm3"));
    assert_eq!("/.pm3", join_path("/", ".pm3"));
    assert_eq!("log", join_path("", "log"));
    assert_eq!("a/b", join_path("a", "b"));
    assert_eq!("dir/é", join_path("dir", "é"));
}
