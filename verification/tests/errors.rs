use vocab_parser::errors::FileError;

#[test]
fn source_failure_is_reported_as_it_stands() {
    let e = FileError::SourceUnavailable("No such file or directory (os error 2)".to_string());
    assert_eq!(e.message(), "No such file or directory (os error 2)");
}

#[test]
fn creation_failure_has_its_prefix() {
    let e = FileError::DestinationUnavailable("denied".to_string());
    assert_eq!(e.message(), "파일 생성 실패: denied");
}

#[test]
fn write_failure_has_its_prefix() {
    let e = FileError::WriteIncomplete("disk full".to_string());
    assert_eq!(e.message(), "파일 쓰기 실패: disk full");
    let e = FileError::WriteIncomplete(String::new());
    assert_eq!(e.message(), "파일 쓰기 실패: ");
}

#[test]
fn the_two_write_failures_are_told_apart() {
    let a = FileError::DestinationUnavailable("x".to_string()).message();
    let b = FileError::WriteIncomplete("x".to_string()).message();
    assert_ne!(a, b);
}
