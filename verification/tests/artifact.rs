use wandb_ft::artifact::{Artifact, ArtifactEntrySource};
use wandb_ft::error::InputErrorKind;

fn new_artifact() -> Artifact {
    match Artifact::new("model".into(), "dataset".into(), Some("desc".into())) {
        Ok(a) => a,
        Err(_) => panic!("valid artifact refused"),
    }
}

#[test]
fn artifact_name_and_type_must_not_be_empty() {
    match Artifact::new("".into(), "t".into(), None) {
        Err(e) => {
            assert_eq!(e.kind, InputErrorKind::Value);
            assert_eq!(e.message, "Artifact name must not be empty");
        }
        Ok(_) => panic!("empty name accepted"),
    }
    match Artifact::new("n".into(), "".into(), None) {
        Err(e) => {
            assert_eq!(e.kind, InputErrorKind::Value);
            assert_eq!(e.message, "Artifact type must not be empty");
        }
        Ok(_) => panic!("empty type accepted"),
    }
}

#[test]
fn entry_names_are_checked() {
    let mut a = new_artifact();
    for bad in ["/etc/passwd", "a/../b", "..", "x..y"] {
        match a.add_bytes(vec![1], bad.into()) {
            Err(e) => {
                assert_eq!(e.kind, InputErrorKind::Value);
                assert_eq!(
                    e.message,
                    "artifact entry name must be a relative path without '..' components"
                );
            }
            Ok(_) => panic!("bad name accepted: {bad}"),
        }
    }
    match a.add_bytes(vec![1], "".into()) {
        Err(e) => assert_eq!(e.message, "artifact entry name must not be empty"),
        Ok(_) => panic!("empty entry name accepted"),
    }
    assert_eq!(a.entries().len(), 0);
    assert!(a.add_bytes(vec![1, 2], "dir/file.bin".into()).is_ok());
    assert!(a.add_bytes(vec![3], "a.b/c.d".into()).is_ok());
    assert_eq!(a.entries().len(), 2);
    assert_eq!(a.entries()[0].name, "dir/file.bin");
}

#[test]
fn add_file_requires_an_existing_file_and_names_it_by_its_file_name() {
    let mut a = new_artifact();
    match a.add_file("/no/such/file.txt".into(), None, false) {
        Err(e) => {
            assert_eq!(e.kind, InputErrorKind::FileNotFound);
            assert_eq!(e.message, "artifact file does not exist: /no/such/file.txt");
        }
        Ok(_) => panic!("missing file accepted"),
    }
    assert!(a.add_file("/data/weights.pt".into(), None, true).is_ok());
    assert!(a.add_file("/data/weights.pt".into(), Some("renamed.pt".into()), true).is_ok());
    match a.add_file("/".into(), None, true) {
        Err(e) => assert_eq!(e.message, "artifact file path has no filename"),
        Ok(_) => panic!("path without a file name accepted"),
    }
    let names: Vec<&str> = a.entries().iter().map(|e| e.name.as_str()).collect();
    assert_eq!(names, vec!["weights.pt", "renamed.pt"]);
    match &a.entries()[0].source {
        ArtifactEntrySource::File(p) => assert_eq!(p, "/data/weights.pt"),
        ArtifactEntrySource::Bytes(_) => panic!("expected a file entry"),
    }
}

#[test]
fn snapshot_needs_entries_and_copies_them() {
    let mut a = new_artifact();
    match a.snapshot() {
        Err(e) => assert_eq!(
            e.message,
            "cannot log an Artifact with no files; call add_file or add_bytes first"
        ),
        Ok(_) => panic!("empty artifact logged"),
    }
    a.add_bytes(b"hello".to_vec(), "greeting.txt".into()).unwrap_or(());
    let s = match a.snapshot() {
        Ok(s) => s,
        Err(_) => panic!("snapshot refused"),
    };
    assert_eq!(s.name, "model");
    assert_eq!(s.artifact_type, "dataset");
    assert_eq!(s.description.as_deref(), Some("desc"));
    assert_eq!(s.entries.len(), 1);
    match &s.entries[0].source {
        ArtifactEntrySource::Bytes(b) => assert_eq!(b, b"hello"),
        ArtifactEntrySource::File(_) => panic!("expected bytes"),
    }
}
