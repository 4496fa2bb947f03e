use podium::config::{
    parse_port, path_validator, port_validator, split_scan_directories, verbosity_level,
    Verbosity,
};
use podium::facet::{from_facet_value, to_facet_value};
use podium::paths::{extension, file_name, is_hidden, same_text};

#[test]
fn path_facet_convert_test_path_facet_conversion() {
    let path = "/home/user/podium/Cargo.toml";
    let facet = to_facet_value(path);
    assert_eq!(facet, "home\0user\0podium\0Cargo.toml");
    assert_eq!(from_facet_value(&facet), path);
}

#[test]
fn tantivy_api_test_path_facet_conversion() {
    let path = "/tmp/t/file.txt";
    let facet = to_facet_value(path);
    assert_eq!(facet, "tmp\0t\0file.txt");
    assert_eq!(from_facet_value(&facet), path);
    assert_eq!(from_facet_value(""), "/");
}

#[test]
fn file_names_and_extensions() {
    assert_eq!(file_name("/tmp/t/a.txt"), "a.txt");
    assert_eq!(file_name("a.txt"), "a.txt");
    assert_eq!(extension("a.txt"), Some("txt"));
    assert_eq!(extension("archive.tar.gz"), Some("gz"));
    assert_eq!(extension(".bashrc"), None);
    assert_eq!(extension("Makefile"), None);
    assert_eq!(extension("a."), Some(""));
    assert!(is_hidden(".git"));
    assert!(!is_hidden("git"));
    assert!(same_text("abc", "abc"));
    assert!(!same_text("abc", "abd"));
}

#[test]
fn hidden_and_directories_are_not_indexed() {
    let supported = vec!["txt".to_string()];
    assert!(podium::watcher::should_index("/tmp/t/a.txt", false, &supported));
    assert!(!podium::watcher::should_index("/tmp/t/.a.txt", false, &supported));
    assert!(!podium::watcher::should_index("/tmp/t/a.txt", true, &supported));
    assert!(!podium::watcher::should_index("/tmp/t/noext", false, &supported));
}

#[test]
fn ports() {
    assert_eq!(parse_port("8080"), Some(8080));
    assert_eq!(parse_port("+1"), Some(1));
    assert_eq!(parse_port("65535"), Some(65535));
    assert_eq!(parse_port("65536"), None);
    assert_eq!(parse_port(""), None);
    assert_eq!(parse_port("80a"), None);
    assert!(port_validator("8080").is_ok());
    assert_eq!(
        port_validator("0"),
        Err("The port value needs to be a number >= 1 and <= 65535".to_string())
    );
    assert!(port_validator("-1").is_err());
}

#[test]
fn scan_directories() {
    assert_eq!(split_scan_directories("/a,/b"), vec!["/a", "/b"]);
    assert_eq!(split_scan_directories("/a"), vec!["/a"]);
    assert_eq!(split_scan_directories(""), vec![""]);
    assert!(path_validator("/a,/b", &vec![true, true]).is_ok());
    assert_eq!(
        path_validator("/a,/b,/c", &vec![false, true, false]),
        Err("The following paths could not be resolved: [\"/a\", \"/c\"]".to_string())
    );
}

#[test]
fn verbosity_levels() {
    assert_eq!(verbosity_level(0), Verbosity::Error);
    assert_eq!(verbosity_level(1), Verbosity::Warn);
    assert_eq!(verbosity_level(2), Verbosity::Info);
    assert_eq!(verbosity_level(3), Verbosity::Debug);
    assert_eq!(verbosity_level(4), Verbosity::Trace);
    assert_eq!(verbosity_level(9), Verbosity::Error);
}
