use wandb_ft::backend::Backend;
use wandb_ft::data_value::{DataValue, LogData};
use wandb_ft::error::{ApiError, ReqwestErrorWithBody};
use wandb_ft::gql::{ArtifactFileNode, RunFileUpload};
use wandb_ft::manifest::ArtifactUploadFile;
use wandb_ft::media::video_from_bytes;
use wandb_ft::run::{
    aliases_or_latest, artifact_upload_target, client_id, finish_row, graphql_url, initial_digest,
    media_uploads, parse_upload_header, sequence_prefix, unique_client_id, upload_file,
    upload_url_for, uploaded_file, RunState,
};

fn state() -> RunState {
    RunState::new("https://api.wandb.ai".into(), "team".into(), "proj".into(), "run1".into())
}

#[test]
fn endpoints() {
    let s = state();
    assert_eq!(s.run_path(), "https://api.wandb.ai/files/team/proj/run1/file_stream");
    assert_eq!(s.graphql_url(), "https://api.wandb.ai/graphql");
    assert_eq!(graphql_url("http://x"), "http://x/graphql");
    assert_eq!(s.entity(), "team");
    assert_eq!(s.project(), "proj");
    assert_eq!(s.name(), "run1");
}

#[test]
fn rows_get_media_records_and_a_timestamp() {
    let mut scalars = LogData::new();
    scalars.insert("loss".into(), DataValue::Int(1));
    scalars.insert("clip".into(), DataValue::Int(5));
    let media = vec![("clip".to_string(), video_from_bytes(b"abc".to_vec()))];
    let (uploads, records) = media_uploads(&media, 7);
    assert_eq!(uploads.len(), 1);
    assert_eq!(uploads[0].0, "media/videos/clip_7_ba7816bf8f01cfea4141.mp4");
    assert_eq!(uploads[0].1, b"abc".to_vec());
    let row = finish_row(scalars, records, 1.5f64.to_bits());
    assert!(matches!(row.get("loss"), Some(DataValue::Int(1))));
    assert!(matches!(row.get("clip"), Some(DataValue::Dict(_))));
    match row.get("_timestamp") {
        Some(DataValue::Float(b)) => assert_eq!(f64::from_bits(*b), 1.5),
        _ => panic!("missing timestamp"),
    }
}

#[test]
fn a_user_timestamp_is_kept() {
    let mut scalars = LogData::new();
    scalars.insert("_timestamp".into(), DataValue::Int(42));
    let row = finish_row(scalars, vec![], 1.0f64.to_bits());
    assert!(matches!(row.get("_timestamp"), Some(DataValue::Int(42))));
}

#[test]
fn later_records_with_the_same_key_win() {
    let row = finish_row(
        LogData::new(),
        vec![("k".into(), DataValue::Int(1)), ("k".into(), DataValue::Int(2))],
        0,
    );
    assert!(matches!(row.get("k"), Some(DataValue::Int(2))));
}

#[test]
fn upload_headers() {
    let p = parse_upload_header("Content-Type:  application/json ");
    assert_eq!(p, Some(("Content-Type".to_string(), "application/json".to_string())));
    assert_eq!(
        parse_upload_header(" x-goog-meta: a:b"),
        Some(("x-goog-meta".to_string(), "a:b".to_string()))
    );
    assert_eq!(parse_upload_header("no colon here"), None);
    assert_eq!(parse_upload_header(":"), Some((String::new(), String::new())));
}

#[test]
fn upload_urls_last_entry_wins() {
    let files = vec![
        RunFileUpload { name: "a".into(), upload_url: Some("u1".into()) },
        RunFileUpload { name: "b".into(), upload_url: None },
        RunFileUpload { name: "a".into(), upload_url: Some("u2".into()) },
    ];
    assert_eq!(upload_url_for("a", &files).ok(), Some("u2".to_string()));
    match upload_url_for("b", &files) {
        Err(ApiError::NoResponse(m)) => assert_eq!(m, "no upload URL for b"),
        _ => panic!("expected no url"),
    }
    match upload_url_for("c", &files) {
        Err(ApiError::NoResponse(m)) => assert_eq!(m, "no upload URL for c"),
        _ => panic!("expected no url"),
    }
}

#[test]
fn artifact_steps() {
    let f = upload_file("w.bin".into(), b"abc".to_vec());
    assert_eq!(f.digest, "kAFQmDzST7DWlj99KOF/cg==");
    assert_eq!(initial_digest("abc"), "kAFQmDzST7DWlj99KOF/cg==");
    match artifact_upload_target("w.bin", None) {
        Err(ApiError::NoResponse(m)) => assert_eq!(m, "CreateArtifactFiles returned an empty file node"),
        _ => panic!("expected an error"),
    }
    let node = ArtifactFileNode { upload_url: None, upload_headers: vec![], storage_path: None };
    match artifact_upload_target("w.bin", Some(node)) {
        Err(ApiError::NoResponse(m)) => assert_eq!(m, "CreateArtifactFiles returned no upload URL for w.bin"),
        _ => panic!("expected an error"),
    }
    let node = ArtifactFileNode {
        upload_url: Some("https://u".into()),
        upload_headers: vec!["h: 1".into()],
        storage_path: Some("sp".into()),
    };
    match artifact_upload_target("w.bin", Some(node)) {
        Ok((u, h, s)) => {
            assert_eq!(u, "https://u");
            assert_eq!(h, vec!["h: 1".to_string()]);
            assert_eq!(s, Some("sp".to_string()));
        }
        Err(_) => panic!("valid node refused"),
    }
    let file = ArtifactUploadFile { name: "w.bin".into(), digest: "d".into(), bytes: vec![1, 2, 3] };
    match uploaded_file(&file, Some("sp".into())) {
        Ok(u) => {
            assert_eq!(u.name, "w.bin");
            assert_eq!(u.digest, "d");
            assert_eq!(u.size, 3);
            assert_eq!(u.storage_path, "sp");
        }
        Err(_) => panic!("valid file refused"),
    }
    match uploaded_file(&file, None) {
        Err(ApiError::NoResponse(m)) => assert_eq!(m, "CreateArtifactFiles returned no storage path for w.bin"),
        _ => panic!("expected an error"),
    }
}

#[test]
fn aliases_and_client_ids() {
    assert_eq!(aliases_or_latest(None), vec!["latest".to_string()]);
    assert_eq!(aliases_or_latest(Some(vec!["v1".into()])), vec!["v1".to_string()]);
    assert_eq!(sequence_prefix("model"), "model-sequence");
    assert_eq!(client_id("model", 12345), "wandb-ft-model-12345");
    let id = unique_client_id("m").expect("clock before the epoch");
    assert!(id.starts_with("wandb-ft-m-"));
    assert!(id["wandb-ft-m-".len()..].chars().all(|c| c.is_ascii_digit()));
}

#[test]
fn backend_credentials() {
    let b = Backend::new("key");
    assert_eq!(b.base_url(), "https://api.wandb.ai");
    assert_eq!(b.authorization(), "Basic YXBpOmtleQ==");
    assert_eq!(Backend::user_agent(), "wandb-core");
}

#[test]
fn api_error_messages() {
    let body = ReqwestErrorWithBody { error: "HTTP 500".into(), body: Ok("oops".into()) };
    assert_eq!(body.message(), "Request error:\nHTTP 500\nResponse body:\noops\n");
    assert_eq!(
        ApiError::RequestErrorWithBody(ReqwestErrorWithBody { error: "e".into(), body: Err("timeout".into()) }).message(),
        "api request failed: Request error:\ne\nFailed to fetch body:\ntimeout\n"
    );
    assert_eq!(ApiError::RequestFailed("x".into()).message(), "api request failed: x");
    assert_eq!(
        ApiError::QueryFailed(vec!["a".into(), "b".into()]).message(),
        "graphql query failed: [a, b]"
    );
    assert_eq!(ApiError::QueryFailed(vec![]).message(), "graphql query failed: []");
    assert_eq!(ApiError::SerializeJson("s".into()).message(), "serialize data to json failed: s");
    assert_eq!(ApiError::NoResponse("n".into()).message(), "no response from query: n");
    assert_eq!(ApiError::MissingApiKey("m".into()).message(), "could not resolve a wandb API key: m");
}

#[test]
fn client_ids_tell_prefix_and_time_apart() {
    assert_ne!(client_id("a-1", 2), client_id("a", 12));
    assert_ne!(client_id("a", 12), client_id("a-1", 2));
    assert_ne!(client_id("m", 1), client_id("m", 10));
    let id = client_id("x-y", 987);
    assert_eq!(id.rsplit_once('-'), Some(("wandb-ft-x-y", "987")));
}
