use wslpath::convert_path;
use wslpath::escape;
use wslpath::file_stem;
use wslpath::TranslateError;
use wslpath::TranslationContext;

fn ctx(cwd: &str, home: Option<&str>) -> TranslationContext {
    TranslationContext { current_dir: cwd.to_string(), home_dir: home.map(|h| h.to_string()) }
}

#[test]
fn drive_argument_backslashes() {
    let c = ctx("D:\\work", None);
    assert_eq!(convert_path("C:\\Users\\me", &c).unwrap(), "/mnt/c/Users/me");
}

#[test]
fn drive_argument_slash_variant() {
    let c = ctx("D:\\work", None);
    assert_eq!(convert_path("C:/Users/me", &c).unwrap(), "/mnt/c/Users/me");
}

#[test]
fn drive_relative_absolute_uses_cwd_drive() {
    let c = ctx("D:\\work", None);
    assert_eq!(convert_path("\\tmp", &c).unwrap(), "/mnt/d/tmp");
}

#[test]
fn relative_argument_anchored_at_cwd() {
    let c = ctx("D:\\work", None);
    assert_eq!(convert_path("relative\\sub", &c).unwrap(), "/mnt/d/work/relative/sub");
}

#[test]
fn home_relative_argument() {
    let c = ctx("D:\\work", Some("C:\\Users\\me"));
    assert_eq!(convert_path("~/docs", &c).unwrap(), "/mnt/c/Users/me/docs");
}

#[test]
fn home_without_drive_only_normalized() {
    let c = ctx("D:\\work", Some("/home/me"));
    assert_eq!(convert_path("~/docs", &c).unwrap(), "~/docs");
}

#[test]
fn home_unresolved_is_an_error() {
    let c = ctx("D:\\work", None);
    assert_eq!(convert_path("~/docs", &c).unwrap_err(), TranslateError::HomeDirUnresolved);
    assert_eq!(
        TranslateError::HomeDirUnresolved.message(),
        "home directory unresolved"
    );
}

#[test]
fn rooted_argument_prefixed_with_cwd_drive() {
    let c = ctx("D:\\work", None);
    assert_eq!(convert_path("/tmp", &c).unwrap(), "/mnt/d/tmp");
}

#[test]
fn rooted_argument_without_drive_context() {
    let c = ctx("/home/me", None);
    assert_eq!(convert_path("/tmp", &c).unwrap(), "/mnt/tmp");
}

#[test]
fn plain_arguments_unchanged() {
    let c = ctx("D:\\work", Some("C:\\Users\\me"));
    assert_eq!(convert_path("plain.txt", &c).unwrap(), "plain.txt");
    assert_eq!(convert_path(".", &c).unwrap(), ".");
    assert_eq!(convert_path("./x", &c).unwrap(), "./x");
    assert_eq!(convert_path("", &c).unwrap(), "");
    assert_eq!(convert_path("~x", &c).unwrap(), "~x");
}

#[test]
fn translation_of_plain_argument_is_idempotent() {
    let c = ctx("D:\\work", None);
    let once = convert_path("data/file.txt", &c).unwrap();
    let twice = convert_path(&once, &c).unwrap();
    assert_eq!(once, "data/file.txt");
    assert_eq!(twice, once);
}

#[test]
fn backslash_without_drive_context_normalized() {
    let c = ctx(".", None);
    assert_eq!(convert_path("a\\b", &c).unwrap(), "a/b");
}

#[test]
fn drive_letter_case_insensitive() {
    let c = ctx("D:\\work", None);
    let lower = convert_path("c:\\x", &c).unwrap();
    let upper = convert_path("C:\\x", &c).unwrap();
    assert_eq!(lower, upper);
    assert_eq!(upper, "/mnt/c/x");
}

#[test]
fn mixed_separators_fully_normalized() {
    let c = ctx("D:\\work", None);
    assert_eq!(convert_path("C:\\a/b\\c", &c).unwrap(), "/mnt/c/a/b/c");
}

#[test]
fn escape_filters_and_translates() {
    let c = ctx("D:\\work", None);
    let args = vec!["launcher.exe".to_string(), "".to_string(), "C:\\a".to_string()];
    let out = escape(&args, &c).unwrap();
    assert_eq!(out, vec!["launcher".to_string(), "/mnt/c/a".to_string()]);
}

#[test]
fn escape_of_empty_list() {
    let c = ctx("D:\\work", None);
    let out = escape(&[], &c).unwrap();
    assert!(out.is_empty());
}

#[test]
fn escape_reports_unresolved_home() {
    let c = ctx("D:\\work", None);
    let args = vec!["launcher.exe".to_string(), "~/x".to_string()];
    assert_eq!(escape(&args, &c).unwrap_err(), TranslateError::HomeDirUnresolved);
}

#[test]
fn format_path_replaces_both_separator_spellings() {
    assert_eq!(wslpath::format_path("C:\\a", 'C', "/mnt/c/"), "/mnt/c/a");
    assert_eq!(wslpath::format_path("C:/a", 'C', "/mnt/c/"), "/mnt/c/a");
    assert_eq!(wslpath::format_path("x C:\\a y C:/b", 'C', "P"), "x Pa y Pb");
    assert_eq!(wslpath::format_path("c:\\a", 'C', "P"), "c:\\a");
}

#[test]
fn drive_letter_rejections() {
    assert_eq!(wslpath::get_drive_letter("1:\\"), None);
    assert_eq!(wslpath::get_drive_letter("C"), None);
    assert_eq!(wslpath::get_drive_letter(""), None);
    assert_eq!(wslpath::get_drive_letter("Cx\\"), None);
}

#[test]
fn remove_first_of_empty_is_none() {
    assert_eq!(wslpath::remove_first(""), None);
}

#[test]
fn file_stem_strips_directory_and_extension() {
    assert_eq!(file_stem("C:\\dir\\launcher.exe"), "launcher");
    assert_eq!(file_stem("a/b/tool"), "tool");
    assert_eq!(file_stem("archive.tar.gz"), "archive.tar");
    assert_eq!(file_stem(".bashrc"), ".bashrc");
    assert_eq!(file_stem("launcher.exe"), "launcher");
}
