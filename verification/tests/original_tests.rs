use wslpath::UnixPathType;

#[test]
fn remove_first() {
    assert_eq!(wslpath::remove_first("Test").unwrap(), "est");
}

#[test]
fn backslash_to_slash() {
    assert_eq!(wslpath::backslash_to_slash("\\/\\/\\/\\"), "///////");
}

#[test]
fn get_drive_letter() {
    assert_eq!(wslpath::get_drive_letter("C:\\"), Some('C'));
    assert_eq!(wslpath::get_drive_letter("C://"), Some('C'));
}

#[test]
fn is_unix_path() {
    assert_eq!(wslpath::is_unix_path("/mnt/bsd/Downloads"), UnixPathType::Root);
    assert_eq!(wslpath::is_unix_path("~/.config/"), UnixPathType::Home);
    assert_eq!(wslpath::is_unix_path("e:/Docs"), UnixPathType::Native);
    assert_eq!(wslpath::is_unix_path("F:/Documents"), UnixPathType::Native);
    assert_eq!(wslpath::is_unix_path("r:\\\\Home"), UnixPathType::Native);
    assert_eq!(wslpath::is_unix_path("a:\\\\shared"), UnixPathType::Native);
    assert_eq!(wslpath::is_unix_path(".\\test/stuff"), UnixPathType::Native);
    assert_eq!(wslpath::is_unix_path("./"), UnixPathType::Other);
}
