//! The helper pieces on their own: integer parsing, path handling and the
//! property bag.

use tiled::{join_path, parent_dir, parse_i32, Properties};

#[test]
fn parses_plain_decimals() {
    assert_eq!(parse_i32("0"), Some(0));
    assert_eq!(parse_i32("1"), Some(1));
    assert_eq!(parse_i32("007"), Some(7));
    assert_eq!(parse_i32("+42"), Some(42));
    assert_eq!(parse_i32("-7"), Some(-7));
}

#[test]
fn parses_the_32_bit_bounds() {
    assert_eq!(parse_i32("2147483647"), Some(i32::MAX));
    assert_eq!(parse_i32("-2147483648"), Some(i32::MIN));
    assert_eq!(parse_i32("2147483648"), None);
    assert_eq!(parse_i32("-2147483649"), None);
    assert_eq!(parse_i32("99999999999999999999"), None);
}

#[test]
fn rejects_non_decimals() {
    assert_eq!(parse_i32(""), None);
    assert_eq!(parse_i32("-"), None);
    assert_eq!(parse_i32("+"), None);
    assert_eq!(parse_i32("abc"), None);
    assert_eq!(parse_i32("1a"), None);
    assert_eq!(parse_i32(" 1"), None);
    assert_eq!(parse_i32("1 "), None);
    assert_eq!(parse_i32("1.0"), None);
}

#[test]
fn parent_of_a_file_path() {
    assert_eq!(parent_dir("/maps/level1.tmx").unwrap(), "/maps");
    assert_eq!(parent_dir("maps/level1.tmx").unwrap(), "maps");
    assert_eq!(parent_dir("/a").unwrap(), "/");
    assert_eq!(parent_dir("a/b/").unwrap(), "a");
    assert_eq!(parent_dir("level1.tmx").unwrap(), "");
}

#[test]
fn roots_have_no_parent() {
    assert_eq!(parent_dir("/"), None);
    assert_eq!(parent_dir("///"), None);
    assert_eq!(parent_dir(""), None);
}

#[test]
fn joining_paths() {
    assert_eq!(join_path("/maps", "tile.png"), "/maps/tile.png");
    assert_eq!(join_path("/maps/", "tile.png"), "/maps/tile.png");
    assert_eq!(join_path("", "tile.png"), "tile.png");
    assert_eq!(join_path("/maps", "/abs.png"), "/abs.png");
}

#[test]
fn properties_insert_and_get() {
    let mut props = Properties::new();
    assert!(props.get("a").is_none());
    props.insert("a".to_string(), "1".to_string());
    props.insert("b".to_string(), "2".to_string());
    assert_eq!(props.get("a").unwrap(), "1");
    assert_eq!(props.get("b").unwrap(), "2");
    assert!(props.contains("a"));
    assert!(!props.contains("c"));
}

#[test]
fn properties_insert_replaces() {
    let mut props = Properties::new();
    props.insert("a".to_string(), "1".to_string());
    props.insert("a".to_string(), "2".to_string());
    assert_eq!(props.get("a").unwrap(), "2");
}
