//! The GraphQL operations sent to the wandb backend, the parts of their
//! replies that are read, and what is made of those replies.

use vstd::prelude::*;

use crate::error::ApiError;
use crate::text::string_of;

verus! {

broadcast use vstd::string::group_string_axioms;

/// A GraphQL reply: the data, if any, and the errors it lists, if any (the
/// debug text of each).
pub struct GraphqlReply<T> {
    pub data: Option<T>,
    pub errors: Option<Vec<String>>,
}

/// Whether a reply lists at least one error.
pub open spec fn has_errors<T>(reply: GraphqlReply<T>) -> bool {
    reply.errors matches Some(v) && v@.len() > 0
}

/// Whether `r` is the error for a reply that lists errors: a failed query
/// with the listed errors.
pub open spec fn query_failed<T, U>(r: Result<U, ApiError>, reply: GraphqlReply<T>) -> bool {
    r matches Err(ApiError::QueryFailed(v)) && reply.errors matches Some(w) && v@ == w@
}

/// Whether `r` is the error for a reply lacking a part: no response, with
/// the message `m`.
pub open spec fn no_response<U>(r: Result<U, ApiError>, m: Seq<char>) -> bool {
    r matches Err(ApiError::NoResponse(x)) && x@ == m
}

/// Splits a reply into its data, or fails with the errors it lists.
pub fn take_data<T>(reply: GraphqlReply<T>) -> (r: Result<Option<T>, ApiError>)
    ensures
        has_errors(reply) ==> query_failed(r, reply),
        !has_errors(reply) ==> r == Ok::<Option<T>, ApiError>(reply.data),
{
    match reply.errors {
        Some(v) => {
            if v.len() > 0 {
                return Err(ApiError::QueryFailed(v));
            }
        },
        None => {},
    }
    Ok(reply.data)
}

// ---------------------------------------------------------------------------
// UpsertBucket
// ---------------------------------------------------------------------------

/// The `UpsertBucket` mutation, which creates or updates a run.
pub struct UpsertBucket;

/// The project of an upserted run.
pub struct UpsertProject {
    pub name: String,
    pub entity_name: String,
}

/// The upserted run.
pub struct UpsertBucketRun {
    pub name: String,
    pub project: Option<UpsertProject>,
}

/// The `upsertBucket` payload.
pub struct UpsertBucketPayload {
    pub bucket: Option<UpsertBucketRun>,
}

/// The data of an `UpsertBucket` reply.
pub struct UpsertBucketData {
    pub upsert_bucket: Option<UpsertBucketPayload>,
}

impl UpsertBucket {
    /// The `(entity, project, name)` of the run the server resolved, or why
    /// the reply does not give it.
    pub fn resolve(reply: GraphqlReply<UpsertBucketData>) -> (r: Result<
        (String, String, String),
        ApiError,
    >)
        ensures
            has_errors(reply) ==> query_failed(r, reply),
            !has_errors(reply) ==> match reply.data {
                None => no_response(r, "UpsertBucket query returned empty data"@),
                Some(d) => match d.upsert_bucket {
                    None => no_response(
                        r,
                        "UpsertBucket query returned data with no upsert_bucket in response"@,
                    ),
                    Some(p) => match p.bucket {
                        None => no_response(
                            r,
                            "UpsertBucket query returned data with no bucket in upsert_bucket"@,
                        ),
                        Some(b) => match b.project {
                            None => no_response(
                                r,
                                "UpsertBucket query returned data with no project in bucket"@,
                            ),
                            Some(pr) => r matches Ok(t) && t.0@ == pr.entity_name@ && t.1@
                                == pr.name@ && t.2@ == b.name@,
                        },
                    },
                },
            },
    {
        let data = take_data(reply)?;
        let data = match data {
            Some(d) => d,
            None => {
                return Err(ApiError::NoResponse(string_of("UpsertBucket query returned empty data")));
            },
        };
        let payload = match data.upsert_bucket {
            Some(p) => p,
            None => {
                return Err(
                    ApiError::NoResponse(
                        string_of("UpsertBucket query returned data with no upsert_bucket in response"),
                    ),
                );
            },
        };
        let bucket = match payload.bucket {
            Some(b) => b,
            None => {
                return Err(
                    ApiError::NoResponse(
                        string_of("UpsertBucket query returned data with no bucket in upsert_bucket"),
                    ),
                );
            },
        };
        let project = match bucket.project {
            Some(p) => p,
            None => {
                return Err(
                    ApiError::NoResponse(
                        string_of("UpsertBucket query returned data with no project in bucket"),
                    ),
                );
            },
        };
        Ok((project.entity_name, project.name, bucket.name))
    }
}

// ---------------------------------------------------------------------------
// CreateRunFiles
// ---------------------------------------------------------------------------

/// The `CreateRunFiles` mutation, which asks for upload URLs for run files.
pub struct CreateRunFiles;

/// A run file and the URL to upload it to, if the server gave one.
pub struct RunFileUpload {
    pub name: String,
    pub upload_url: Option<String>,
}

/// The `createRunFiles` payload: the files, and the headers to send with
/// each upload.
pub struct CreateRunFilesPayload {
    pub files: Vec<RunFileUpload>,
    pub upload_headers: Vec<String>,
}

/// The data of a `CreateRunFiles` reply.
pub struct CreateRunFilesData {
    pub create_run_files: Option<CreateRunFilesPayload>,
}

impl CreateRunFiles {
    /// The upload targets the reply gives, or why it gives none.
    pub fn resolve(reply: GraphqlReply<CreateRunFilesData>) -> (r: Result<
        CreateRunFilesPayload,
        ApiError,
    >)
        ensures
            has_errors(reply) ==> query_failed(r, reply),
            !has_errors(reply) ==> match reply.data {
                Some(CreateRunFilesData { create_run_files: Some(p) }) => r == Ok::<
                    CreateRunFilesPayload,
                    ApiError,
                >(p),
                _ => no_response(r, "CreateRunFiles returned no data"@),
            },
    {
        match take_data(reply)? {
            Some(d) => match d.create_run_files {
                Some(p) => Ok(p),
                None => Err(ApiError::NoResponse(string_of("CreateRunFiles returned no data"))),
            },
            None => Err(ApiError::NoResponse(string_of("CreateRunFiles returned no data"))),
        }
    }
}

// ---------------------------------------------------------------------------
// CreateArtifact
// ---------------------------------------------------------------------------

/// The `CreateArtifact` mutation.
pub struct CreateArtifact;

/// The `createArtifact` payload: the id of the created artifact.
pub struct CreateArtifactPayload {
    pub artifact_id: String,
}

/// The data of a `CreateArtifact` reply.
pub struct CreateArtifactData {
    pub create_artifact: Option<CreateArtifactPayload>,
}

impl CreateArtifact {
    /// The id of the created artifact, or why the reply does not give it.
    pub fn resolve(reply: GraphqlReply<CreateArtifactData>) -> (r: Result<String, ApiError>)
        ensures
            has_errors(reply) ==> query_failed(r, reply),
            !has_errors(reply) ==> match reply.data {
                Some(CreateArtifactData { create_artifact: Some(p) }) => r matches Ok(id) && id@
                    == p.artifact_id@,
                _ => no_response(r, "CreateArtifact returned no artifact id"@),
            },
    {
        match take_data(reply)? {
            Some(d) => match d.create_artifact {
                Some(p) => Ok(p.artifact_id),
                None => Err(ApiError::NoResponse(string_of("CreateArtifact returned no artifact id"))),
            },
            None => Err(ApiError::NoResponse(string_of("CreateArtifact returned no artifact id"))),
        }
    }
}

// ---------------------------------------------------------------------------
// CreateArtifactFiles
// ---------------------------------------------------------------------------

/// The `CreateArtifactFiles` mutation.
pub struct CreateArtifactFiles;

/// Where one artifact file is to be uploaded and stored.
pub struct ArtifactFileNode {
    pub upload_url: Option<String>,
    pub upload_headers: Vec<String>,
    pub storage_path: Option<String>,
}

/// The `createArtifactFiles` payload: one node per requested file.
pub struct CreateArtifactFilesPayload {
    pub nodes: Vec<Option<ArtifactFileNode>>,
}

/// The data of a `CreateArtifactFiles` reply.
pub struct CreateArtifactFilesData {
    pub create_artifact_files: Option<CreateArtifactFilesPayload>,
}

impl CreateArtifactFiles {
    /// The file nodes the reply gives, or why it gives none.
    pub fn resolve(reply: GraphqlReply<CreateArtifactFilesData>) -> (r: Result<
        Vec<Option<ArtifactFileNode>>,
        ApiError,
    >)
        ensures
            has_errors(reply) ==> query_failed(r, reply),
            !has_errors(reply) ==> match reply.data {
                Some(CreateArtifactFilesData { create_artifact_files: Some(p) }) => r == Ok::<
                    Vec<Option<ArtifactFileNode>>,
                    ApiError,
                >(p.nodes),
                _ => no_response(r, "CreateArtifactFiles returned no files"@),
            },
    {
        match take_data(reply)? {
            Some(d) => match d.create_artifact_files {
                Some(p) => Ok(p.nodes),
                None => Err(ApiError::NoResponse(string_of("CreateArtifactFiles returned no files"))),
            },
            None => Err(ApiError::NoResponse(string_of("CreateArtifactFiles returned no files"))),
        }
    }
}

// ---------------------------------------------------------------------------
// CreateArtifactManifest
// ---------------------------------------------------------------------------

/// The `CreateArtifactManifest` mutation.
pub struct CreateArtifactManifest;

/// Where the manifest is to be uploaded.
pub struct ManifestFile {
    pub upload_url: Option<String>,
    pub upload_headers: Vec<String>,
}

/// The `createArtifactManifest` payload.
pub struct CreateArtifactManifestPayload {
    pub file: ManifestFile,
}

/// The data of a `CreateArtifactManifest` reply.
pub struct CreateArtifactManifestData {
    pub create_artifact_manifest: Option<CreateArtifactManifestPayload>,
}

impl CreateArtifactManifest {
    /// The URL and headers to upload the manifest with, or why the reply
    /// does not give them.
    pub fn resolve(reply: GraphqlReply<CreateArtifactManifestData>) -> (r: Result<
        (String, Vec<String>),
        ApiError,
    >)
        ensures
            has_errors(reply) ==> query_failed(r, reply),
            !has_errors(reply) ==> match reply.data {
                Some(CreateArtifactManifestData { create_artifact_manifest: Some(p) }) => match p.file.upload_url {
                    Some(u) => r matches Ok(t) && t.0@ == u@ && t.1@ == p.file.upload_headers@,
                    None => no_response(r, "CreateArtifactManifest returned no upload URL"@),
                },
                _ => no_response(r, "CreateArtifactManifest returned no file"@),
            },
    {
        let file = match take_data(reply)? {
            Some(d) => match d.create_artifact_manifest {
                Some(p) => p.file,
                None => {
                    return Err(ApiError::NoResponse(string_of("CreateArtifactManifest returned no file")));
                },
            },
            None => {
                return Err(ApiError::NoResponse(string_of("CreateArtifactManifest returned no file")));
            },
        };
        match file.upload_url {
            Some(u) => Ok((u, file.upload_headers)),
            None => Err(ApiError::NoResponse(string_of("CreateArtifactManifest returned no upload URL"))),
        }
    }
}

// ---------------------------------------------------------------------------
// CommitArtifact
// ---------------------------------------------------------------------------

/// The `CommitArtifact` mutation.
pub struct CommitArtifact;

/// The data of a `CommitArtifact` reply, which is not read.
pub struct CommitArtifactData;

impl CommitArtifact {
    /// Whether the commit succeeded: it fails only when the reply lists
    /// errors.
    pub fn resolve(reply: GraphqlReply<CommitArtifactData>) -> (r: Result<(), ApiError>)
        ensures
            has_errors(reply) ==> query_failed(r, reply),
            !has_errors(reply) ==> r is Ok,
    {
        take_data(reply)?;
        Ok(())
    }
}

} // verus!
