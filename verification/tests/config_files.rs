use vellum::config_files::{absolute, config_paths, join_path};

fn text(paths: Vec<Vec<u8>>) -> Vec<String> {
    paths.into_iter().map(|p| String::from_utf8(p).unwrap()).collect()
}

#[test]
fn xdg_config_home_comes_first() {
    let paths = config_paths(Some(b"/cfg"), Some(b"/home/me"), None);
    assert_eq!(text(paths), vec!["/cfg/vellum/config.toml", "/etc/xdg/vellum/config.toml"]);
}

#[test]
fn home_is_used_when_xdg_config_home_is_relative_or_missing() {
    let paths = config_paths(Some(b"cfg"), Some(b"/home/me/"), Some(b""));
    assert_eq!(
        text(paths),
        vec!["/home/me/.config/vellum/config.toml", "/etc/xdg/vellum/config.toml"]
    );
    let paths = config_paths(None, Some(b"/home/me"), None);
    assert_eq!(
        text(paths),
        vec!["/home/me/.config/vellum/config.toml", "/etc/xdg/vellum/config.toml"]
    );
}

#[test]
fn relative_directories_are_skipped() {
    let paths = config_paths(None, Some(b"home"), Some(b"/a:rel::/b/"));
    assert_eq!(text(paths), vec!["/a/vellum/config.toml", "/b/vellum/config.toml"]);
    let paths = config_paths(None, None, Some(b"rel:"));
    assert!(paths.is_empty());
}

#[test]
fn joining_paths() {
    assert_eq!(join_path(b"/", b"x"), b"/x".to_vec());
    assert_eq!(join_path(b"/a", b"x"), b"/a/x".to_vec());
    assert_eq!(join_path(b"", b"x"), b"x".to_vec());
    assert!(absolute(b"/etc"));
    assert!(!absolute(b"etc"));
    assert!(!absolute(b""));
}
