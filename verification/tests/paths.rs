//! Where things are kept.
use rini::paths::{config_file, config_file_in, data_dir, data_dir_in, restore_file, restore_file_in};
use std::path::Path;

fn text(path: Vec<u8>) -> String {
    String::from_utf8(path).unwrap()
}

#[test]
fn the_layout_snapshot_sits_in_the_data_dir() {
    let restore = text(restore_file().unwrap());
    assert_eq!(Path::new(&restore).parent().unwrap(), Path::new(&text(data_dir().unwrap())));
    assert_eq!(Path::new(&restore).file_name().unwrap(), "layout.ron");
}

#[test]
fn the_config_lives_under_dot_config_rini() {
    let path = text(config_file().unwrap());
    assert!(Path::new(&path).ends_with(".config/rini/config.toml"), "{path:?}");
}

#[test]
fn everything_is_kept_below_the_home_directory() {
    assert_eq!(data_dir_in(b"/Users/me"), b"/Users/me/.rini");
    assert_eq!(restore_file_in(b"/Users/me"), b"/Users/me/.rini/layout.ron");
    assert_eq!(config_file_in(b"/Users/me"), b"/Users/me/.config/rini/config.toml");
    assert_eq!(data_dir_in(b"/"), b"/.rini");
    assert_eq!(data_dir_in(b""), b".rini");
}

#[test]
fn a_home_directory_need_not_be_text() {
    assert_eq!(data_dir_in(b"/home/\xff"), b"/home/\xff/.rini");
}
