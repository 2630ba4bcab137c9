use wandb_ft::manifest::{build_manifest, lex_less, manifest_order, UploadedArtifactFile};

fn file(name: &str, digest: &str, size: u64, path: &str) -> UploadedArtifactFile {
    UploadedArtifactFile {
        name: name.into(),
        digest: digest.into(),
        size,
        storage_path: path.into(),
    }
}

#[test]
fn names_are_ordered_by_code_point() {
    let v = |s: &str| s.chars().collect::<Vec<char>>();
    assert!(lex_less(&v("a"), &v("b")));
    assert!(lex_less(&v("a"), &v("ab")));
    assert!(!lex_less(&v("ab"), &v("a")));
    assert!(!lex_less(&v("a"), &v("a")));
    assert!(lex_less(&v("Z"), &v("a")));
    assert!(lex_less(&v("z"), &v("é")));
}

#[test]
fn manifest_lists_each_name_once_in_order_with_its_last_file() {
    let files = vec![
        file("b.txt", "d1", 1, "p1"),
        file("a.txt", "d2", 2, "p2"),
        file("b.txt", "d3", 3, "p3"),
    ];
    assert_eq!(manifest_order(&files), vec![1, 2]);
    let m = build_manifest(&files).ok().unwrap();
    assert_eq!(
        m,
        "{\"contents\":{\"a.txt\":{\"digest\":\"d2\",\"path\":\"p2\",\"size\":2},\"b.txt\":{\"digest\":\"d3\",\"path\":\"p3\",\"size\":3}},\"storagePolicy\":\"wandb-storage-policy-v1\",\"storagePolicyConfig\":{\"storageLayout\":\"V2\"},\"version\":1}"
    );
}

#[test]
fn manifest_matches_serde_json_of_the_same_document() {
    let files = vec![
        file("z\"q\\uote", "dg==", 10, "s/1"),
        file("dir/é", "x", 0, "s/2"),
        file("Tab\tname", "y", 18446744073709551615, "s/3"),
    ];
    let mut contents = serde_json::Map::new();
    for f in &files {
        let mut entry = serde_json::Map::new();
        entry.insert("digest".into(), serde_json::Value::from(f.digest.clone()));
        entry.insert("size".into(), serde_json::Value::from(f.size));
        entry.insert("path".into(), serde_json::Value::from(f.storage_path.clone()));
        contents.insert(f.name.clone(), serde_json::Value::Object(entry));
    }
    let mut config = serde_json::Map::new();
    config.insert("storageLayout".into(), serde_json::Value::from("V2"));
    let mut doc = serde_json::Map::new();
    doc.insert("version".into(), serde_json::Value::from(1));
    doc.insert("storagePolicy".into(), serde_json::Value::from("wandb-storage-policy-v1"));
    doc.insert("storagePolicyConfig".into(), serde_json::Value::Object(config));
    doc.insert("contents".into(), serde_json::Value::Object(contents));
    let expected = serde_json::Value::Object(doc);
    let m = build_manifest(&files).ok().unwrap();
    assert_eq!(m, serde_json::to_string(&expected).unwrap());
}

#[test]
fn empty_manifest() {
    let m = build_manifest(&vec![]).ok().unwrap();
    assert_eq!(
        m,
        "{\"contents\":{},\"storagePolicy\":\"wandb-storage-policy-v1\",\"storagePolicyConfig\":{\"storageLayout\":\"V2\"},\"version\":1}"
    );
}

#[test]
fn manifest_escapes_control_characters() {
    let files = vec![file("a\u{1}b\u{1f}\u{8}\u{c}\r\n/\u{7f}", "d", 1, "p")];
    let m = build_manifest(&files).ok().unwrap();
    assert!(m.starts_with(
        "{\"contents\":{\"a\\u0001b\\u001f\\b\\f\\r\\n/\u{7f}\":{\"digest\":\"d\",\"path\":\"p\",\"size\":1}}"
    ));
}
