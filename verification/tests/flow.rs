use wandb_ft::data_value::{DataValue, LogData};
use wandb_ft::digest::digest_bytes;
use wandb_ft::error::ApiError;
use wandb_ft::flow::{ArtifactAction, ArtifactFlow, RowAction, RowFlow};
use wandb_ft::gql::{ArtifactFileNode, CreateRunFilesPayload, RunFileUpload};
use wandb_ft::manifest::{build_manifest, UploadedArtifactFile};
use wandb_ft::media::{video_from_bytes, ParsedRow};
use wandb_ft::run::upload_file;

fn node(url: Option<&str>, storage: Option<&str>) -> Option<ArtifactFileNode> {
    Some(ArtifactFileNode {
        upload_url: url.map(|u| u.to_string()),
        upload_headers: vec!["Content-Type: text/plain".to_string()],
        storage_path: storage.map(|s| s.to_string()),
    })
}

fn two_files() -> Vec<wandb_ft::manifest::ArtifactUploadFile> {
    vec![
        upload_file("b.txt".into(), b"hello".to_vec()),
        upload_file("a.txt".into(), b"x".to_vec()),
    ]
}

fn created(flow: &mut ArtifactFlow) -> ArtifactAction {
    flow.on_artifact_created(Ok("art-1".to_string()))
}

#[test]
fn artifact_is_created_uploaded_and_committed() {
    let (mut flow, action) = ArtifactFlow::start("my-art", two_files(), None);
    match action {
        ArtifactAction::CreateArtifact { digest, aliases } => {
            assert_eq!(digest, digest_bytes(b"my-art"));
            assert_eq!(aliases, vec!["latest".to_string()]);
        }
        _ => panic!("expected CreateArtifact"),
    }
    match created(&mut flow) {
        ArtifactAction::CreateFiles { artifact_id, files } => {
            assert_eq!(artifact_id, "art-1");
            assert_eq!(
                files,
                vec![
                    ("b.txt".to_string(), digest_bytes(b"hello")),
                    ("a.txt".to_string(), digest_bytes(b"x")),
                ]
            );
        }
        _ => panic!("expected CreateFiles"),
    }
    let nodes = vec![node(Some("u1"), Some("s1")), node(Some("u2"), Some("s2"))];
    match flow.on_files_created(Ok(nodes)) {
        ArtifactAction::Upload { url, headers, bytes } => {
            assert_eq!(url, "u1");
            assert_eq!(headers, vec!["Content-Type: text/plain".to_string()]);
            assert_eq!(bytes, b"hello".to_vec());
        }
        _ => panic!("expected the first upload"),
    }
    match flow.on_uploaded() {
        ArtifactAction::Upload { url, bytes, .. } => {
            assert_eq!(url, "u2");
            assert_eq!(bytes, b"x".to_vec());
        }
        _ => panic!("expected the second upload"),
    }
    let expected = build_manifest(&vec![
        UploadedArtifactFile {
            name: "b.txt".into(),
            digest: digest_bytes(b"hello"),
            size: 5,
            storage_path: "s1".into(),
        },
        UploadedArtifactFile {
            name: "a.txt".into(),
            digest: digest_bytes(b"x"),
            size: 1,
            storage_path: "s2".into(),
        },
    ])
    .ok()
    .unwrap();
    match flow.on_uploaded() {
        ArtifactAction::CreateManifest { artifact_id, digest } => {
            assert_eq!(artifact_id, "art-1");
            assert_eq!(digest, digest_bytes(expected.as_bytes()));
        }
        _ => panic!("expected CreateManifest"),
    }
    match flow.on_manifest_created(Ok(("murl".to_string(), vec!["h: v".to_string()]))) {
        ArtifactAction::Upload { url, headers, bytes } => {
            assert_eq!(url, "murl");
            assert_eq!(headers, vec!["h: v".to_string()]);
            assert_eq!(bytes, expected.into_bytes());
        }
        _ => panic!("expected the manifest upload"),
    }
    match flow.on_uploaded() {
        ArtifactAction::Commit { artifact_id } => assert_eq!(artifact_id, "art-1"),
        _ => panic!("expected Commit"),
    }
    assert!(matches!(flow.on_committed(Ok(())), ArtifactAction::Done(Ok(()))));
}

#[test]
fn artifact_aliases_are_kept() {
    let (_, action) = ArtifactFlow::start("a", vec![], Some(vec!["v1".into(), "best".into()]));
    match action {
        ArtifactAction::CreateArtifact { aliases, .. } => {
            assert_eq!(aliases, vec!["v1".to_string(), "best".to_string()])
        }
        _ => panic!("expected CreateArtifact"),
    }
}

#[test]
fn artifact_creation_error_ends_the_flow() {
    let (mut flow, _) = ArtifactFlow::start("a", two_files(), None);
    match flow.on_artifact_created(Err(ApiError::MissingApiKey("no key".into()))) {
        ArtifactAction::Done(Err(ApiError::MissingApiKey(_))) => {}
        _ => panic!("expected the error"),
    }
}

#[test]
fn empty_file_node_is_an_error() {
    let (mut flow, _) = ArtifactFlow::start("a", two_files(), None);
    created(&mut flow);
    match flow.on_files_created(Ok(vec![None, node(Some("u2"), Some("s2"))])) {
        ArtifactAction::Done(Err(e)) => {
            assert_eq!(e.message(), "no response from query: CreateArtifactFiles returned an empty file node")
        }
        _ => panic!("expected the error"),
    }
}

#[test]
fn missing_upload_url_is_an_error() {
    let (mut flow, _) = ArtifactFlow::start("a", two_files(), None);
    created(&mut flow);
    match flow.on_files_created(Ok(vec![node(None, Some("s1")), node(Some("u2"), Some("s2"))])) {
        ArtifactAction::Done(Err(ApiError::NoResponse(m))) => {
            assert_eq!(m, "CreateArtifactFiles returned no upload URL for b.txt")
        }
        _ => panic!("expected the error"),
    }
}

#[test]
fn missing_storage_path_is_an_error_after_the_upload() {
    let (mut flow, _) = ArtifactFlow::start("a", two_files(), None);
    created(&mut flow);
    assert!(matches!(
        flow.on_files_created(Ok(vec![node(Some("u1"), None), node(Some("u2"), Some("s2"))])),
        ArtifactAction::Upload { .. }
    ));
    match flow.on_uploaded() {
        ArtifactAction::Done(Err(ApiError::NoResponse(m))) => {
            assert_eq!(m, "CreateArtifactFiles returned no storage path for b.txt")
        }
        _ => panic!("expected the error"),
    }
}

#[test]
fn fewer_nodes_than_files_is_an_error() {
    let (mut flow, _) = ArtifactFlow::start("a", two_files(), None);
    created(&mut flow);
    match flow.on_files_created(Ok(vec![node(Some("u1"), Some("s1"))])) {
        ArtifactAction::Done(Err(ApiError::NoResponse(m))) => {
            assert_eq!(m, "CreateArtifactFiles returned fewer file nodes than files")
        }
        _ => panic!("expected the error"),
    }
}

#[test]
fn extra_nodes_are_ignored() {
    let (mut flow, _) = ArtifactFlow::start("a", vec![upload_file("b.txt".into(), b"hello".to_vec())], None);
    created(&mut flow);
    assert!(matches!(
        flow.on_files_created(Ok(vec![node(Some("u1"), Some("s1")), node(Some("u2"), Some("s2"))])),
        ArtifactAction::Upload { .. }
    ));
    let expected = build_manifest(&vec![UploadedArtifactFile {
        name: "b.txt".into(),
        digest: digest_bytes(b"hello"),
        size: 5,
        storage_path: "s1".into(),
    }])
    .ok()
    .unwrap();
    match flow.on_uploaded() {
        ArtifactAction::CreateManifest { digest, .. } => {
            assert_eq!(digest, digest_bytes(expected.as_bytes()))
        }
        _ => panic!("expected CreateManifest"),
    }
}

#[test]
fn manifest_and_commit_errors_end_the_flow() {
    let (mut flow, _) = ArtifactFlow::start("a", vec![], None);
    created(&mut flow);
    assert!(matches!(
        flow.on_files_created(Ok(vec![])),
        ArtifactAction::CreateManifest { .. }
    ));
    assert!(matches!(
        flow.on_manifest_created(Err(ApiError::NoResponse("x".into()))),
        ArtifactAction::Done(Err(ApiError::NoResponse(_)))
    ));

    let (mut flow, _) = ArtifactFlow::start("a", vec![], None);
    created(&mut flow);
    flow.on_files_created(Ok(vec![]));
    flow.on_manifest_created(Ok(("m".into(), vec![])));
    assert!(matches!(flow.on_uploaded(), ArtifactAction::Commit { .. }));
    assert!(matches!(
        flow.on_committed(Err(ApiError::QueryFailed(vec!["bad".into()]))),
        ArtifactAction::Done(Err(ApiError::QueryFailed(_)))
    ));
}

fn row_with_scalars() -> LogData {
    let mut scalars = LogData::new();
    scalars.insert("loss".into(), DataValue::Int(3));
    scalars
}

#[test]
fn a_row_without_media_is_ready_at_once() {
    let row = ParsedRow { scalars: row_with_scalars(), media: vec![] };
    let (flow, action) = RowFlow::start(row, 0);
    assert!(matches!(action, RowAction::Post));
    let data = flow.finish(2.5f64.to_bits());
    assert!(matches!(data.get("loss"), Some(DataValue::Int(3))));
    match data.get("_timestamp") {
        Some(DataValue::Float(b)) => assert_eq!(f64::from_bits(*b), 2.5),
        _ => panic!("missing timestamp"),
    }
}

#[test]
fn a_row_with_media_uploads_them_first() {
    let media = vec![
        ("clip".to_string(), video_from_bytes(b"abc".to_vec())),
        ("other".to_string(), video_from_bytes(b"de".to_vec())),
    ];
    let row = ParsedRow { scalars: row_with_scalars(), media };
    let (mut flow, action) = RowFlow::start(row, 7);
    let paths = match action {
        RowAction::CreateRunFiles { paths } => paths,
        _ => panic!("expected CreateRunFiles"),
    };
    assert_eq!(paths.len(), 2);
    assert_eq!(paths[0], "media/videos/clip_7_ba7816bf8f01cfea4141.mp4");
    let payload = CreateRunFilesPayload {
        files: vec![
            RunFileUpload { name: paths[1].clone(), upload_url: Some("u2".into()) },
            RunFileUpload { name: paths[0].clone(), upload_url: Some("u1".into()) },
        ],
        upload_headers: vec!["k: v".into()],
    };
    match flow.on_upload_targets(Ok(payload)) {
        RowAction::Upload { url, headers, bytes } => {
            assert_eq!(url, "u1");
            assert_eq!(headers, vec!["k: v".to_string()]);
            assert_eq!(bytes, b"abc".to_vec());
        }
        _ => panic!("expected the first upload"),
    }
    match flow.on_uploaded() {
        RowAction::Upload { url, bytes, .. } => {
            assert_eq!(url, "u2");
            assert_eq!(bytes, b"de".to_vec());
        }
        _ => panic!("expected the second upload"),
    }
    assert!(matches!(flow.on_uploaded(), RowAction::Post));
    let data = flow.finish(0);
    assert!(matches!(data.get("clip"), Some(DataValue::Dict(_))));
    assert!(matches!(data.get("other"), Some(DataValue::Dict(_))));
    assert!(matches!(data.get("loss"), Some(DataValue::Int(3))));
}

#[test]
fn a_media_file_without_url_fails_the_row() {
    let media = vec![("clip".to_string(), video_from_bytes(b"abc".to_vec()))];
    let row = ParsedRow { scalars: LogData::new(), media };
    let (mut flow, action) = RowFlow::start(row, 1);
    let path = match action {
        RowAction::CreateRunFiles { paths } => paths[0].clone(),
        _ => panic!("expected CreateRunFiles"),
    };
    let payload = CreateRunFilesPayload {
        files: vec![RunFileUpload { name: path.clone(), upload_url: None }],
        upload_headers: vec![],
    };
    match flow.on_upload_targets(Ok(payload)) {
        RowAction::Fail(ApiError::NoResponse(m)) => {
            assert_eq!(m, format!("no upload URL for {}", path))
        }
        _ => panic!("expected the error"),
    }

    let media = vec![("clip".to_string(), video_from_bytes(b"abc".to_vec()))];
    let row = ParsedRow { scalars: LogData::new(), media };
    let (mut flow, _) = RowFlow::start(row, 1);
    assert!(matches!(
        flow.on_upload_targets(Err(ApiError::MissingApiKey("no key".into()))),
        RowAction::Fail(ApiError::MissingApiKey(_))
    ));
}
