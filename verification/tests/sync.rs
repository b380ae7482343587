use celeste::rclone::sync::{
    copy_to_local, copy_to_remote, delete, delete_config, get_remote_name, list, mkdir, purge,
    stat, strip_slashes,
};
use celeste::rclone::RcloneListFilter;

#[test]
fn remote_file_system_names() {
    assert_eq!(get_remote_name("drive"), "drive:");
    assert_eq!(get_remote_name(""), ":");
}

#[test]
fn slashes_are_stripped_at_both_ends() {
    assert_eq!(strip_slashes("/a/b/"), "a/b");
    assert_eq!(strip_slashes("//a//"), "a");
    assert_eq!(strip_slashes("/"), "");
    assert_eq!(strip_slashes("a"), "a");
    assert_eq!(strip_slashes(&strip_slashes("//x/y//")), "x/y");
}

#[test]
fn path_requests() {
    let r = mkdir("gd", "/Documents/new/");
    assert_eq!(r.method, "operations/mkdir");
    assert_eq!(r.input, r#"{"fs":"gd:","remote":"Documents/new"}"#);
    let d = delete("gd", "/Documents/new/");
    assert_eq!(d.method, "operations/delete");
    assert_eq!(d.input, r.input);
    let p = purge("gd", "x");
    assert_eq!(p.method, "operations/purge");
    assert_eq!(p.input, r#"{"fs":"gd:","remote":"x"}"#);
    let s = stat("gd", "/");
    assert_eq!(s.method, "operations/stat");
    assert_eq!(s.input, r#"{"fs":"gd:","remote":""}"#);
}

#[test]
fn escaped_paths() {
    let r = mkdir("my \"gd\"", "a\\b\n\t\u{1}\u{1f}\u{7f}é");
    assert_eq!(r.input, "{\"fs\":\"my \\\"gd\\\":\",\"remote\":\"a\\\\b\\n\\t\\u0001\\u001f\u{7f}é\"}");
    let r = mkdir("x", "\u{8}\u{c}\r");
    assert_eq!(r.input, r#"{"fs":"x:","remote":"\b\f\r"}"#);
}

#[test]
fn list_requests() {
    let all = list("gd", "/a/", true, RcloneListFilter::All);
    assert_eq!(all.method, "operations/list");
    assert_eq!(all.input, r#"{"fs":"gd:","opt":{"recurse":true},"remote":"a"}"#);
    let dirs = list("gd", "a", false, RcloneListFilter::Dirs);
    assert_eq!(dirs.input, r#"{"fs":"gd:","opt":{"dirsOnly":true,"recurse":false},"remote":"a"}"#);
    let files = list("gd", "", true, RcloneListFilter::Files);
    assert_eq!(files.input, r#"{"fs":"gd:","opt":{"filesOnly":true,"recurse":true},"remote":""}"#);
}

#[test]
fn copy_requests() {
    let up = copy_to_remote("/home/me/f.txt", "gd", "/docs/f.txt");
    assert_eq!(up.method, "operations/copyfile");
    assert_eq!(up.input, r#"{"dstFs":"gd:","dstRemote":"docs/f.txt","srcFs":"/","srcRemote":"home/me/f.txt"}"#);
    let down = copy_to_local("/home/me/f.txt", "gd", "/docs/f.txt");
    assert_eq!(down.input, r#"{"dstFs":"/","dstRemote":"home/me/f.txt","srcFs":"gd:","srcRemote":"docs/f.txt"}"#);
}

#[test]
fn config_deletion_request() {
    let r = delete_config("old:remote");
    assert_eq!(r.method, "config/delete");
    assert_eq!(r.input, r#"{"name":"old:remote"}"#);
}
