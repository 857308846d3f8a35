use rung::files::{verify_files, FileRef};

fn file_ref(path: &str, exists: bool) -> FileRef {
    FileRef {
        path: path.to_string(),
        exists,
        content: String::new(),
    }
}

#[test]
fn should_validate_file() {
    let file = file_ref("file.txt", true);

    assert_eq!(true, verify_files(&vec![file]));
}

#[test]
fn should_fail_validation_when_one_file_missing() {
    let file = file_ref("file.txt", true);

    assert_eq!(
        false,
        verify_files(&vec![file, file_ref("missing.txt", false)])
    );
}

#[test]
fn should_not_validate_missing_file() {
    assert_eq!(false, verify_files(&vec![file_ref("missing.txt", false)]));
}

#[test]
fn should_validate_multiple_files() {
    let file1 = file_ref("file1.txt", true);
    let file2 = file_ref("file2.txt", true);

    assert_eq!(true, verify_files(&vec![file1, file2]));
}
