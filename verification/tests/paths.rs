use smech_farm::paths::{file_name, parent_dir};
use std::path::Path;

const PATHS: [&str; 24] = [
    "a", "a/b", "/a/b", "/a", "/", "", ".", "..", "./a", "a/", "a//", "a/.", "a/./", "a/./b",
    "a/..", "../a", "//a", "//", "/.", "./", "./.", "/srv/jobs/7-x.tar.w", "a//b", "/a/b/../c",
];

#[test]
fn file_names_are_those_of_std() {
    for p in PATHS {
        let expected = Path::new(p).file_name().unwrap_or_default().to_string_lossy().to_string();
        assert_eq!(file_name(p), expected, "{:?}", p);
    }
}

#[test]
fn folders_are_those_of_std() {
    for p in PATHS {
        let expected = Path::new(p).parent().unwrap_or(Path::new(".")).to_string_lossy().to_string();
        assert_eq!(parent_dir(p), expected, "{:?}", p);
    }
}

#[test]
fn a_folder_and_a_name_make_a_path() {
    assert_eq!(file_name("/srv/farm/x.tar"), "x.tar");
    assert_eq!(parent_dir("/srv/farm/x.tar"), "/srv/farm");
}
