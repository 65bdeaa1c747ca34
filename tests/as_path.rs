use rpf::{AsPath, Path, PathBuf};

#[test]
fn test_as_path_string() {
    assert_eq!("/etc/test/dir".to_string().as_path().clone(),
        Path::new("/etc/test/dir"));
}

#[test]
fn test_as_pathbuf_string() {
    assert_eq!("/etc/test/dir".to_string().as_pathbuf(),
        PathBuf::from("/etc/test/dir"));
}

#[test]
fn test_as_path_str() {
    assert_eq!("/etc/test/dir".as_path().clone(),
        Path::new("/etc/test/dir"));
}

#[test]
fn test_as_pathbuf_str() {
    assert_eq!("/etc/test/dir".as_pathbuf(),
        PathBuf::from("/etc/test/dir"));
}

#[test]
fn as_path_holds_utf8_bytes() {
    let text = "/tmp/é";
    assert_eq!(text.as_path().as_bytes(), text.as_bytes());
    assert_eq!(text.to_string().as_pathbuf().as_bytes(), text.as_bytes());
}
