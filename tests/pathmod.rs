use rpf::{Path, PathBuf, PathMod};

#[test]
fn test_pathmod_first_comp() {
    let comp = Path::new("/etc/test").first_component().unwrap();
    assert_eq!(comp, PathBuf::from("/"));
}

#[test]
fn test_pathmod_last_comp() {
    let comp = Path::new("/etc/test").last_component().unwrap();
    assert_eq!(comp, PathBuf::from("test"));
}

#[test]
fn test_pathmod_as_str() {
    let string = Path::new("/var/log/test").as_str();
    assert_eq!(string, "/var/log/test");
}

#[test]
fn test_pathmod_as_string() {
    let string = Path::new("/var/log/test").as_string();
    assert_eq!(string, "/var/log/test".to_string());
}

#[test]
fn test_pathmod_is_dot() {
    let path = Path::new("/dir/test/.test");
    assert_eq!(path.is_dot(), true);
}

#[test]
fn test_pathmod_rel_to_parent() {
    let path = PathBuf::from("/var/log/test");
    assert_eq!(PathBuf::from("test"), path.rel_to_parent().unwrap());
}

fn texts(p: &str) -> Vec<String> {
    rpf::pathmod::components_of(p.as_bytes())
        .into_iter()
        .map(|c| String::from_utf8(c).unwrap())
        .collect()
}

#[test]
fn components_skip_repeated_separators_and_dots() {
    assert_eq!(texts("a//b/./c/"), vec!["a", "b", "c"]);
    assert_eq!(texts("//usr///lib"), vec!["/", "usr", "lib"]);
}

#[test]
fn components_keep_leading_current_dir_and_parent_dirs() {
    assert_eq!(texts("./a"), vec![".", "a"]);
    assert_eq!(texts("."), vec!["."]);
    assert_eq!(texts("a/./."), vec!["a"]);
    assert_eq!(texts("../a/.."), vec!["..", "a", ".."]);
    assert_eq!(texts(".hidden"), vec![".hidden"]);
}

#[test]
fn components_of_empty_and_root() {
    assert!(texts("").is_empty());
    assert_eq!(texts("/"), vec!["/"]);
}

#[test]
fn dotfile_path_end_to_end() {
    let path = Path::new("/etc/test/.dotfile");
    assert!(path.is_dot());
    assert_eq!(path.first_component().unwrap(), PathBuf::from("/"));
    assert_eq!(path.last_component().unwrap(), PathBuf::from(".dotfile"));
}

#[test]
fn single_component_is_first_and_last() {
    let path = PathBuf::from("file.txt");
    assert_eq!(path.first_component(), path.last_component());
    assert_eq!(path.first_component().unwrap(), PathBuf::from("file.txt"));
    let root = Path::new("/");
    assert_eq!(root.first_component(), root.last_component());
}

#[test]
fn empty_path_has_no_components() {
    let path = Path::new("");
    assert_eq!(path.first_component(), None);
    assert_eq!(path.last_component(), None);
    assert_eq!(path.rel_to_parent(), None);
    assert_eq!(path.parent(), None);
    assert!(!path.is_dot());
}

#[test]
fn root_has_no_parent() {
    let root = Path::new("/");
    assert_eq!(root.rel_to_parent(), None);
    assert_eq!(root.parent(), None);
}

#[test]
fn parent_joined_with_relative_part_gives_the_path() {
    for text in ["/var/log/test", "a", "./a", "/a", "a/b/", "../x/./y", "."] {
        let path = PathBuf::from(text);
        let parent = path.parent().unwrap();
        let rel = path.rel_to_parent().unwrap();
        let back = parent.join(&rel);
        assert_eq!(texts(back.as_str()), texts(text), "{}", text);
    }
}

#[test]
fn parent_is_written_from_its_components() {
    assert_eq!(PathBuf::from("/var/log/test").parent().unwrap(), PathBuf::from("/var/log"));
    assert_eq!(PathBuf::from("/var").parent().unwrap(), PathBuf::from("/"));
    assert_eq!(PathBuf::from("a//b/").parent().unwrap(), PathBuf::from("a"));
    assert_eq!(PathBuf::from("a").parent().unwrap(), PathBuf::from(""));
}

#[test]
fn join_adds_one_separator() {
    assert_eq!(PathBuf::from("a").join(&PathBuf::from("b")), PathBuf::from("a/b"));
    assert_eq!(PathBuf::from("/").join(&PathBuf::from("b")), PathBuf::from("/b"));
    assert_eq!(PathBuf::from("").join(&PathBuf::from("b")), PathBuf::from("b"));
}

#[test]
fn hidden_follows_last_component_text() {
    assert!(!Path::new("/a/b").is_dot());
    assert!(!Path::new("/").is_dot());
    assert!(Path::new("a/..").is_dot());
    assert!(Path::new(".config/").is_dot());
    assert!(!Path::new(".config/x").is_dot());
    let bytes = [b'/', b'.', 0xff];
    assert!(!Path::from_bytes(&bytes).is_dot());
}

#[test]
fn text_round_trips_and_invalid_bytes_give_empty_text() {
    let text = "/home/üser/ファイル";
    assert_eq!(PathBuf::from(text).as_string(), text);
    assert_eq!(Path::new(text).as_str(), text);
    let bad = PathBuf::from_bytes(vec![b'/', 0xff, b'a']);
    assert_eq!(bad.as_str(), "");
    assert_eq!(bad.as_string(), String::new());
    assert_eq!(bad.last_component().unwrap().as_bytes(), &[0xff, b'a']);
    let bytes = [0xc3u8, 0x28];
    assert_eq!(Path::from_bytes(&bytes).as_str(), "");
}

#[test]
fn components_agree_with_std_paths() {
    let inputs = [
        "", "/", "//a", "a/./b", "./", ".", "a/..", "a/b/", "/etc/test/.dotfile", "./a/./b",
        "../..", "a//b///c", "/./a/.", ".hidden/x", "..a/.b",
    ];
    for input in inputs {
        let expected: Vec<String> = std::path::Path::new(input)
            .components()
            .map(|c| c.as_os_str().to_str().unwrap().to_string())
            .collect();
        assert_eq!(texts(input), expected, "{}", input);
    }
}
