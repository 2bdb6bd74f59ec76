use std::path::Path;

use eidolon::work_directory::{assert_path_within_work_directory, normalize_work_directory};

#[test]
fn accepts_path_inside_work_directory() {
    let normalized = assert_path_within_work_directory("/tmp/eidolon", "notes/todo.md")
        .expect("path inside work directory should be accepted");

    assert_eq!(Path::new(&normalized), Path::new("/tmp/eidolon/notes/todo.md"));
}

#[test]
fn accepts_nested_child_path() {
    let normalized = assert_path_within_work_directory(
        "/tmp/eidolon",
        "src/./components/../components/app.ts",
    )
    .expect("nested child path should be accepted");

    assert_eq!(Path::new(&normalized), Path::new("/tmp/eidolon/src/components/app.ts"));
}

#[test]
fn rejects_parent_traversal_outside_work_directory() {
    let error = assert_path_within_work_directory("/tmp/eidolon", "../outside.txt")
        .expect_err("escaped path should be rejected");

    assert!(error.contains("路径超出工作目录边界"));
}

#[test]
fn rejects_absolute_path_outside_work_directory() {
    let error = assert_path_within_work_directory("/tmp/eidolon", "/etc/hosts")
        .expect_err("absolute path outside work directory should be rejected");

    assert!(error.contains("路径超出工作目录边界"));
}

#[test]
fn rejects_empty_work_directory() {
    let error = normalize_work_directory("   ").expect_err("blank work directory should fail");

    assert_eq!(error, "work_directory 不能为空");
}

#[test]
fn work_directory_is_normalised_and_must_be_absolute() {
    assert_eq!(normalize_work_directory(" /tmp//a/./b/../c/ ").unwrap(), "/tmp/a/c");
    assert_eq!(normalize_work_directory("/").unwrap(), "/");
    assert_eq!(normalize_work_directory("/..").unwrap(), "/");
    assert_eq!(normalize_work_directory("tmp/a").unwrap_err(), "work_directory 必须是绝对路径");
    assert_eq!(assert_path_within_work_directory("/tmp/eidolon", "").unwrap(), "/tmp/eidolon");
    assert_eq!(
        assert_path_within_work_directory("/tmp/eidolon", "/tmp/eidolon/x/../y").unwrap(),
        "/tmp/eidolon/y"
    );
    assert_eq!(
        assert_path_within_work_directory("/tmp/eidolon", "a/../../eidolonx").unwrap_err(),
        "路径超出工作目录边界: a/../../eidolonx"
    );
}
