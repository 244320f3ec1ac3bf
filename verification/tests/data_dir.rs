use std::path::PathBuf;

use cockpit_maintenance::data_dir::{
    ebwebview_data_dir, resolve_ebwebview_data_dir, DataDir, DirRoot, EBWEBVIEW_DIR_IDENTIFIER,
};

fn root_text(dir: &DataDir) -> String {
    match &dir.root {
        DirRoot::System(path) => format!("system {}", path.display()),
        DirRoot::Named(text) => format!("named {}", text),
    }
}

#[test]
fn system_directory_comes_before_the_environment() {
    let dir = ebwebview_data_dir(Some(PathBuf::from("/data")), Some("/env".to_string())).unwrap();
    assert_eq!(root_text(&dir), "system /data");
    assert_eq!(dir.parts, ["com.jlcodes.cockpit-tools", "EBWebView"]);
    assert_eq!(EBWEBVIEW_DIR_IDENTIFIER, "com.jlcodes.cockpit-tools");
}

#[test]
fn environment_is_trimmed() {
    let dir = ebwebview_data_dir(None, Some(" C:\\Users\\A\\AppData\\Local \n".to_string())).unwrap();
    assert_eq!(root_text(&dir), "named C:\\Users\\A\\AppData\\Local");
    assert_eq!(dir.parts, ["com.jlcodes.cockpit-tools", "EBWebView"]);
}

#[test]
fn nothing_known_means_no_directory() {
    assert!(ebwebview_data_dir(None, None).is_none());
    assert!(ebwebview_data_dir(None, Some("  ".to_string())).is_none());
    assert!(ebwebview_data_dir(None, Some(String::new())).is_none());
}

#[test]
fn system_directory_is_the_one_that_the_system_tells() {
    let local_data = dirs::data_local_dir();
    let dir = resolve_ebwebview_data_dir(None);
    match (local_data, dir) {
        (Some(path), Some(dir)) => assert_eq!(root_text(&dir), format!("system {}", path.display())),
        (None, None) => {}
        _ => panic!("the profile directory is not below the local data directory"),
    }
}
