use edgeless_plugin::catalog::{
    split_file_name, CatalogError, FileMeta, FsNode, NodeKind, PluginEntry,
};
use edgeless_plugin::extension::PluginExtension;

fn file(path: &str, name: &str, size: u64) -> FsNode {
    FsNode {
        path: path.to_string(),
        name: name.to_string(),
        kind: NodeKind::File,
        filemeta: FileMeta { size, modified: 7 },
        children: vec![],
    }
}

fn dir(path: &str, name: &str, children: Vec<FsNode>) -> FsNode {
    FsNode {
        path: path.to_string(),
        name: name.to_string(),
        kind: NodeKind::Directory,
        filemeta: FileMeta { size: 0, modified: 0 },
        children,
    }
}

#[test]
fn file_names_split_at_last_dot() {
    assert_eq!(split_file_name("a.7z"), ("a".to_string(), Some("7z".to_string())));
    assert_eq!(
        split_file_name("Cool_1.0_Jane.7zl"),
        ("Cool_1.0_Jane".to_string(), Some("7zl".to_string()))
    );
    assert_eq!(split_file_name("noext"), ("noext".to_string(), None));
    assert_eq!(split_file_name(".hidden"), (".hidden".to_string(), None));
    assert_eq!(split_file_name(".hidden.7z"), (".hidden".to_string(), Some("7z".to_string())));
    assert_eq!(split_file_name("trailing."), ("trailing".to_string(), Some(String::new())));
    assert_eq!(split_file_name(""), (String::new(), None));
}

#[test]
fn entry_of_a_plugin_archive() {
    let e = PluginEntry::new(
        "R/CoolTweak_1.0_Jane.7z".to_string(),
        "CoolTweak_1.0_Jane.7z",
        true,
        FileMeta { size: 10, modified: 20 },
    )
    .unwrap();
    assert_eq!(e.path, "R/CoolTweak_1.0_Jane.7z");
    assert_eq!(e.extension, Some(PluginExtension::Normal));
    assert_eq!(e.filemeta, FileMeta { size: 10, modified: 20 });
    let m = e.meta.unwrap();
    assert_eq!((m.name.as_str(), m.version.as_str(), m.author.as_str()), ("CoolTweak", "1.0", "Jane"));
    assert_eq!(m.category, None);
}

#[test]
fn entry_without_identity_is_kept() {
    let e = PluginEntry::new("R/Broken.7z".to_string(), "Broken.7z", true, FileMeta {
        size: 1,
        modified: 2,
    })
    .unwrap();
    assert_eq!(e.extension, Some(PluginExtension::Normal));
    assert!(e.meta.is_none());
}

#[test]
fn entry_errors() {
    let meta = FileMeta { size: 0, modified: 0 };
    assert_eq!(
        PluginEntry::new("R/a.7z".to_string(), "a.7z", false, meta).err(),
        Some(CatalogError::NotFound)
    );
    assert_eq!(
        PluginEntry::new("R/README".to_string(), "README", true, meta).err(),
        Some(CatalogError::InvalidExtension)
    );
    let other = PluginEntry::new("R/a.txt".to_string(), "a.txt", true, meta).unwrap();
    assert_eq!(other.extension, None);
}

#[test]
fn scan_keeps_family_files_at_any_depth() {
    let root = dir(
        "R",
        "R",
        vec![
            file("R/a_1_x.7z", "a_1_x.7z", 1),
            file("R/readme.txt", "readme.txt", 2),
            file("R/LICENSE", "LICENSE", 3),
            dir(
                "R/sub",
                "sub",
                vec![
                    file("R/sub/b_2_y.7zl", "b_2_y.7zl", 4),
                    dir("R/sub/deep", "deep", vec![file("R/sub/deep/c_3_z_cat.7zf", "c_3_z_cat.7zf", 5)]),
                    dir("R/sub/empty", "empty", vec![]),
                ],
            ),
            file("R/weird.7zx", "weird.7zx", 6),
        ],
    );
    let found = PluginEntry::scan_dir(&root).unwrap();
    let paths: Vec<&str> = found.iter().map(|e| e.path.as_str()).collect();
    assert_eq!(
        paths,
        vec!["R/a_1_x.7z", "R/sub/b_2_y.7zl", "R/sub/deep/c_3_z_cat.7zf", "R/weird.7zx"]
    );
    let classes: Vec<Option<PluginExtension>> = found.iter().map(|e| e.extension).collect();
    assert_eq!(
        classes,
        vec![
            Some(PluginExtension::Normal),
            Some(PluginExtension::Localboost),
            Some(PluginExtension::Disabled),
            Some(PluginExtension::Unknown)
        ]
    );
    let sizes: Vec<u64> = found.iter().map(|e| e.filemeta.size).collect();
    assert_eq!(sizes, vec![1, 4, 5, 6]);
    assert!(found[3].meta.is_none());
    assert_eq!(found[2].meta.as_ref().unwrap().category, Some("cat".to_string()));
}

#[test]
fn scan_needs_a_directory() {
    let f = file("R/a_1_x.7z", "a_1_x.7z", 1);
    assert_eq!(PluginEntry::scan_dir(&f).err(), Some(CatalogError::NotFound));
    assert_eq!(PluginEntry::from_profile(None).err(), Some(CatalogError::NotFound));
    assert_eq!(PluginEntry::from_profile(Some(&f)).err(), Some(CatalogError::NotFound));
    let empty = dir("R", "R", vec![]);
    assert!(PluginEntry::from_profile(Some(&empty)).unwrap().is_empty());
    assert_eq!(PluginEntry::scan_node(&f).len(), 1);
}

#[test]
fn catalog_includes_unknown_suffix_of_the_family() {
    let root = dir("R", "R", vec![file("R/weird.7zx", "weird.7zx", 1)]);
    let found = PluginEntry::from_profile(Some(&root)).unwrap();
    assert_eq!(found.len(), 1);
    assert_eq!(found[0].extension, Some(PluginExtension::Unknown));
}
