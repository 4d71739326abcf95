use edgeless_plugin::extension::PluginExtension;
use edgeless_plugin::text::{text_equals, u8_to_ascii, InvalidAscii};

#[test]
fn known_suffixes() {
    assert_eq!(PluginExtension::new("7z"), Some(PluginExtension::Normal));
    assert_eq!(PluginExtension::new("7zl"), Some(PluginExtension::Localboost));
    assert_eq!(PluginExtension::new("7zf"), Some(PluginExtension::Disabled));
}

#[test]
fn unknown_suffix_of_the_family() {
    assert_eq!(PluginExtension::new("7zx"), Some(PluginExtension::Unknown));
    assert_eq!(PluginExtension::new("7zn"), Some(PluginExtension::Unknown));
    assert_eq!(PluginExtension::new("7zlong"), Some(PluginExtension::Unknown));
}

#[test]
fn suffix_outside_the_family() {
    assert_eq!(PluginExtension::new("zip"), None);
    assert_eq!(PluginExtension::new(""), None);
    assert_eq!(PluginExtension::new("7"), None);
    assert_eq!(PluginExtension::new("a7z"), None);
    assert_eq!(PluginExtension::new("7Z"), None);
}

#[test]
fn suffix_with_line_break_is_outside_the_family() {
    assert_eq!(PluginExtension::new("7z\nx"), None);
}

#[test]
fn class_after_match() {
    assert_eq!(PluginExtension::of_match(Some(true), "7zl"), Some(PluginExtension::Localboost));
    assert_eq!(PluginExtension::of_match(Some(true), "zip"), Some(PluginExtension::Unknown));
    assert_eq!(PluginExtension::of_match(Some(false), "7z"), None);
    assert_eq!(PluginExtension::of_match(None, "7z"), None);
    assert_eq!(PluginExtension::of_family_member("7z"), PluginExtension::Normal);
    assert_eq!(PluginExtension::of_family_member("7zf"), PluginExtension::Disabled);
}

#[test]
fn text_equality() {
    assert!(text_equals("", ""));
    assert!(text_equals("7z", "7z"));
    assert!(!text_equals("7z", "7zl"));
    assert!(!text_equals("7zl", "7zf"));
    assert!(text_equals("\u{5206}\u{8fa8}", "\u{5206}\u{8fa8}"));
}

#[test]
fn ascii_bytes_become_text() {
    assert_eq!(u8_to_ascii(b"NTFS"), Ok("NTFS".to_string()));
    assert_eq!(u8_to_ascii(b""), Ok(String::new()));
    assert_eq!(u8_to_ascii(&[0, 127]), Ok("\u{0}\u{7f}".to_string()));
}

#[test]
fn first_non_ascii_byte_is_reported() {
    assert_eq!(u8_to_ascii(&[65, 200, 66, 255]), Err(InvalidAscii { byte: 200, index: 1 }));
    assert_eq!(u8_to_ascii(&[128]), Err(InvalidAscii { byte: 128, index: 0 }));
}
