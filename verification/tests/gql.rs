use wandb_ft::error::ApiError;
use wandb_ft::gql::{
    ArtifactFileNode, CommitArtifact, CommitArtifactData, CreateArtifact, CreateArtifactData,
    CreateArtifactFiles, CreateArtifactFilesData, CreateArtifactFilesPayload,
    CreateArtifactManifest, CreateArtifactManifestData, CreateArtifactManifestPayload,
    CreateArtifactPayload, CreateRunFiles, CreateRunFilesData, CreateRunFilesPayload,
    GraphqlReply, ManifestFile, RunFileUpload, UpsertBucket, UpsertBucketData,
    UpsertBucketPayload, UpsertBucketRun, UpsertProject,
};

fn no_response<T>(r: Result<T, ApiError>) -> String {
    match r {
        Err(ApiError::NoResponse(m)) => m,
        _ => panic!("expected a missing response"),
    }
}

fn upsert(data: Option<UpsertBucketData>) -> GraphqlReply<UpsertBucketData> {
    GraphqlReply { data, errors: None }
}

#[test]
fn upsert_bucket_gives_the_resolved_run() {
    let reply = upsert(Some(UpsertBucketData {
        upsert_bucket: Some(UpsertBucketPayload {
            bucket: Some(UpsertBucketRun {
                name: "run-1".into(),
                project: Some(UpsertProject { name: "proj".into(), entity_name: "team".into() }),
            }),
        }),
    }));
    match UpsertBucket::resolve(reply) {
        Ok((e, p, n)) => {
            assert_eq!(e, "team");
            assert_eq!(p, "proj");
            assert_eq!(n, "run-1");
        }
        Err(_) => panic!("valid reply refused"),
    }
}

#[test]
fn upsert_bucket_missing_parts() {
    assert_eq!(no_response(UpsertBucket::resolve(upsert(None))), "UpsertBucket query returned empty data");
    assert_eq!(
        no_response(UpsertBucket::resolve(upsert(Some(UpsertBucketData { upsert_bucket: None })))),
        "UpsertBucket query returned data with no upsert_bucket in response"
    );
    assert_eq!(
        no_response(UpsertBucket::resolve(upsert(Some(UpsertBucketData {
            upsert_bucket: Some(UpsertBucketPayload { bucket: None })
        })))),
        "UpsertBucket query returned data with no bucket in upsert_bucket"
    );
    assert_eq!(
        no_response(UpsertBucket::resolve(upsert(Some(UpsertBucketData {
            upsert_bucket: Some(UpsertBucketPayload {
                bucket: Some(UpsertBucketRun { name: "r".into(), project: None })
            })
        })))),
        "UpsertBucket query returned data with no project in bucket"
    );
}

#[test]
fn listed_errors_fail_the_query() {
    let reply: GraphqlReply<UpsertBucketData> = GraphqlReply {
        data: None,
        errors: Some(vec!["Error { message: \"denied\" }".into()]),
    };
    match UpsertBucket::resolve(reply) {
        Err(ApiError::QueryFailed(v)) => assert_eq!(v, vec!["Error { message: \"denied\" }".to_string()]),
        _ => panic!("expected a failed query"),
    }
    let empty: GraphqlReply<CommitArtifactData> = GraphqlReply { data: None, errors: Some(vec![]) };
    assert!(CommitArtifact::resolve(empty).is_ok());
    let failed: GraphqlReply<CommitArtifactData> =
        GraphqlReply { data: Some(CommitArtifactData), errors: Some(vec!["e".into()]) };
    assert!(matches!(CommitArtifact::resolve(failed), Err(ApiError::QueryFailed(_))));
}

#[test]
fn create_run_files_and_artifacts() {
    let ok = GraphqlReply {
        data: Some(CreateRunFilesData {
            create_run_files: Some(CreateRunFilesPayload {
                files: vec![RunFileUpload { name: "a".into(), upload_url: Some("u".into()) }],
                upload_headers: vec!["h: v".into()],
            }),
        }),
        errors: None,
    };
    match CreateRunFiles::resolve(ok) {
        Ok(p) => {
            assert_eq!(p.files.len(), 1);
            assert_eq!(p.upload_headers, vec!["h: v".to_string()]);
        }
        Err(_) => panic!("valid reply refused"),
    }
    let none = GraphqlReply { data: Some(CreateRunFilesData { create_run_files: None }), errors: None };
    assert_eq!(no_response(CreateRunFiles::resolve(none)), "CreateRunFiles returned no data");

    let art = GraphqlReply {
        data: Some(CreateArtifactData {
            create_artifact: Some(CreateArtifactPayload { artifact_id: "QXJ0".into() }),
        }),
        errors: None,
    };
    assert_eq!(CreateArtifact::resolve(art).ok(), Some("QXJ0".to_string()));
    let no_art: GraphqlReply<CreateArtifactData> = GraphqlReply { data: None, errors: None };
    assert_eq!(no_response(CreateArtifact::resolve(no_art)), "CreateArtifact returned no artifact id");

    let files = GraphqlReply {
        data: Some(CreateArtifactFilesData {
            create_artifact_files: Some(CreateArtifactFilesPayload {
                nodes: vec![None, Some(ArtifactFileNode {
                    upload_url: None,
                    upload_headers: vec![],
                    storage_path: Some("s".into()),
                })],
            }),
        }),
        errors: None,
    };
    assert_eq!(CreateArtifactFiles::resolve(files).ok().map(|n| n.len()), Some(2));
    let no_files: GraphqlReply<CreateArtifactFilesData> =
        GraphqlReply { data: Some(CreateArtifactFilesData { create_artifact_files: None }), errors: None };
    assert_eq!(no_response(CreateArtifactFiles::resolve(no_files)), "CreateArtifactFiles returned no files");
}

#[test]
fn manifest_upload_target() {
    let reply = |url: Option<&str>| GraphqlReply {
        data: Some(CreateArtifactManifestData {
            create_artifact_manifest: Some(CreateArtifactManifestPayload {
                file: ManifestFile {
                    upload_url: url.map(|u| u.to_string()),
                    upload_headers: vec!["x-a: 1".into()],
                },
            }),
        }),
        errors: None,
    };
    match CreateArtifactManifest::resolve(reply(Some("https://up"))) {
        Ok((u, h)) => {
            assert_eq!(u, "https://up");
            assert_eq!(h, vec!["x-a: 1".to_string()]);
        }
        Err(_) => panic!("valid reply refused"),
    }
    assert_eq!(
        no_response(CreateArtifactManifest::resolve(reply(None))),
        "CreateArtifactManifest returned no upload URL"
    );
    let none: GraphqlReply<CreateArtifactManifestData> = GraphqlReply { data: None, errors: None };
    assert_eq!(
        no_response(CreateArtifactManifest::resolve(none)),
        "CreateArtifactManifest returned no file"
    );
}
