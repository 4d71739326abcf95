use edgeless_plugin::metadata::{duplicate_identity, same_identity, split_on, PluginMetadata};

fn parts(m: &PluginMetadata) -> (String, String, String, Option<String>) {
    (m.name.clone(), m.version.clone(), m.author.clone(), m.category.clone())
}

#[test]
fn it_works() {
    assert_eq!(2 + 2, 4);
}

#[test]
fn lib_it_works() {
    assert_eq!(2 + 2, 4);
}

#[test]
fn parse_three_fields() {
    let m = PluginMetadata::parse("CoolTweak_1.0_Jane").unwrap();
    assert_eq!(
        parts(&m),
        ("CoolTweak".to_string(), "1.0".to_string(), "Jane".to_string(), None)
    );
}

#[test]
fn parse_four_fields() {
    let m = PluginMetadata::parse("Editor_2.3.1_Bob_Office").unwrap();
    assert_eq!(
        parts(&m),
        (
            "Editor".to_string(),
            "2.3.1".to_string(),
            "Bob".to_string(),
            Some("Office".to_string())
        )
    );
}

#[test]
fn parse_rejects_other_counts() {
    assert!(PluginMetadata::parse("").is_none());
    assert!(PluginMetadata::parse("Broken").is_none());
    assert!(PluginMetadata::parse("a_b").is_none());
    assert!(PluginMetadata::parse("a_b_c_d_e").is_none());
    assert!(PluginMetadata::parse("a_b_c_d_").is_none());
}

#[test]
fn parse_keeps_fields_verbatim() {
    let m = PluginMetadata::parse("__").unwrap();
    assert_eq!(parts(&m), (String::new(), String::new(), String::new(), None));
    let m = PluginMetadata::parse("n\u{e4}me_not a number_A.B-C_").unwrap();
    assert_eq!(
        parts(&m),
        (
            "n\u{e4}me".to_string(),
            "not a number".to_string(),
            "A.B-C".to_string(),
            Some(String::new())
        )
    );
}

#[test]
fn split_counts_one_more_than_separators() {
    assert_eq!(split_on("", '_'), vec![String::new()]);
    assert_eq!(split_on("abc", '_'), vec!["abc".to_string()]);
    assert_eq!(
        split_on("_a__b_", '_'),
        vec!["".to_string(), "a".to_string(), "".to_string(), "b".to_string(), "".to_string()]
    );
}

#[test]
fn token_round_trip() {
    for token in ["CoolTweak_1.0_Jane", "Editor_2.3.1_Bob_Office", "__", "a_b_c_"] {
        let m = PluginMetadata::parse(token).unwrap();
        assert_eq!(m.token(), token);
        let again = PluginMetadata::parse(&m.token()).unwrap();
        assert!(m.same_as(&again));
    }
}

#[test]
fn identity_equality_includes_category() {
    let plain = PluginMetadata::parse("a_1_x").unwrap();
    let same = PluginMetadata::parse("a_1_x").unwrap();
    let with_category = PluginMetadata::parse("a_1_x_tools").unwrap();
    let empty_category = PluginMetadata::parse("a_1_x_").unwrap();
    let other_version = PluginMetadata::parse("a_2_x").unwrap();
    assert!(plain.same_as(&same));
    assert!(!plain.same_as(&with_category));
    assert!(!plain.same_as(&empty_category));
    assert!(!with_category.same_as(&empty_category));
    assert!(!plain.same_as(&other_version));
    assert!(same_identity(&None, &None));
    assert!(!same_identity(&Some(plain.duplicate()), &None));
    assert!(same_identity(&duplicate_identity(&Some(plain)), &Some(same)));
}
