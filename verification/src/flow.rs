//! The request sequences of logging an artifact and of logging a row with
//! media, as state machines: each step takes what the last request gave and
//! says which request comes next, or that the sequence is over.

use vstd::prelude::*;

use crate::digest::{base64_standard, digest_bytes, md5_digest};
use crate::error::ApiError;
use crate::data_value::{DataValue, DataValueView, LogData};
use crate::gql::{ArtifactFileNode, CreateRunFilesPayload, RunFileUpload};
use crate::manifest::{
    build_manifest, manifest_json, manifest_order_of, names_of, ArtifactUploadFile,
    UploadedArtifactFile,
};
use crate::media::{record_map, record_path, ParsedRow};
use crate::run::{
    aliases_or_latest, artifact_upload_target, finish_row, initial_digest, logged_row,
    media_uploads, records_view, upload_url_for, upload_url_of, uploaded_file,
};

verus! {

broadcast use vstd::string::group_string_axioms;

// ---------------------------------------------------------------------------
// Logging an artifact
// ---------------------------------------------------------------------------

/// Where the logging of an artifact stands.
#[derive(PartialEq, Eq, Structural, Clone, Copy)]
pub enum ArtifactPhase {
    /// Waiting for the artifact to be created.
    CreatingArtifact,
    /// Waiting for the upload targets of its files.
    CreatingFiles,
    /// Waiting for the upload of one of its files.
    UploadingFiles,
    /// Waiting for the upload target of its manifest.
    CreatingManifest,
    /// Waiting for the upload of its manifest.
    UploadingManifest,
    /// Waiting for the commit.
    Committing,
    /// Over.
    Finished,
}

/// The request the logging of an artifact makes next.
pub enum ArtifactAction {
    /// Create the artifact with this digest under these aliases.
    CreateArtifact { digest: String, aliases: Vec<String> },
    /// Ask for upload targets for these files (name and digest) of the
    /// artifact.
    CreateFiles { artifact_id: String, files: Vec<(String, String)> },
    /// Upload `bytes` to `url`, sending `headers`.
    Upload { url: String, headers: Vec<String>, bytes: Vec<u8> },
    /// Ask for the upload target of a manifest with this digest.
    CreateManifest { artifact_id: String, digest: String },
    /// Commit the artifact.
    Commit { artifact_id: String },
    /// The logging is over, with this outcome.
    Done(Result<(), ApiError>),
}

/// The logging of an artifact.
pub struct ArtifactFlow {
    phase: ArtifactPhase,
    files: Vec<ArtifactUploadFile>,
    artifact_id: String,
    nodes: Vec<Option<ArtifactFileNode>>,
    given: Ghost<Seq<Option<ArtifactFileNode>>>,
    next: usize,
    storage_path: Option<String>,
    uploaded: Vec<UploadedArtifactFile>,
    manifest: Vec<u8>,
}

/// Whether `u` records the upload of `f` to storage path `storage`.
pub open spec fn records_upload(u: UploadedArtifactFile, f: ArtifactUploadFile, storage: Seq<char>) -> bool {
    u.name@ == f.name@ && u.digest@ == f.digest@ && u.size == f.bytes@.len() && u.storage_path@
        == storage
}

/// Whether `u` records the upload of `f` to the storage path that the
/// upload target `node` names.
pub open spec fn recorded_at(
    node: Option<ArtifactFileNode>,
    u: UploadedArtifactFile,
    f: ArtifactUploadFile,
) -> bool {
    match node {
        Some(n) => match n.storage_path {
            Some(p) => records_upload(u, f, p@),
            None => false,
        },
        None => false,
    }
}

/// The name and digest of each file.
pub open spec fn file_specs_match(specs: Seq<(String, String)>, files: Seq<ArtifactUploadFile>) -> bool {
    specs.len() == files.len() && forall|k: int|
        0 <= k < files.len() ==> (#[trigger] specs[k]).0@ == files[k].name@ && specs[k].1@
            == files[k].digest@
}

impl ArtifactFlow {
    /// Where the logging stands.
    pub closed spec fn phase(&self) -> ArtifactPhase {
        self.phase
    }

    /// The files of the artifact.
    pub closed spec fn files(&self) -> Seq<ArtifactUploadFile> {
        self.files@
    }

    /// The id the backend gave the artifact.
    pub closed spec fn artifact_id(&self) -> Seq<char> {
        self.artifact_id@
    }

    /// The upload targets the backend gave for the files, one per file.
    pub closed spec fn given(&self) -> Seq<Option<ArtifactFileNode>> {
        self.given@
    }

    /// How many files are uploaded.
    pub closed spec fn next(&self) -> nat {
        self.next as nat
    }

    /// The records of the uploaded files.
    pub closed spec fn uploaded(&self) -> Seq<UploadedArtifactFile> {
        self.uploaded@
    }

    /// The manifest uploaded with the artifact.
    pub closed spec fn manifest(&self) -> Seq<u8> {
        self.manifest@
    }

    /// The state is consistent: the uploaded files are the first ones, each
    /// recorded with the storage path the backend named for it.
    pub closed spec fn wf(&self) -> bool {
        &&& self.nodes@.len() == self.given@.len()
        &&& self.next <= self.files@.len()
        &&& self.next <= self.given@.len()
        &&& self.uploaded@.len() == self.next
        &&& self.phase == ArtifactPhase::UploadingFiles ==> {
            &&& self.next < self.files@.len()
            &&& self.files@.len() <= self.given@.len()
            &&& self.given@[self.next as int] matches Some(n) && self.storage_path == n.storage_path
        }
        &&& self.phase != ArtifactPhase::Finished ==> forall|k: int|
            self.next <= k < self.nodes@.len() && !(self.phase == ArtifactPhase::UploadingFiles
                && k == self.next) ==> #[trigger] self.nodes@[k] == self.given@[k]
        &&& forall|k: int|
            0 <= k < self.next ==> recorded_at(
                #[trigger] self.given@[k],
                self.uploaded@[k],
                self.files@[k],
            )
    }

    /// What follows the upload of the first `next()` files: the upload of
    /// the next file, with the target the backend gave for it, or, once
    /// every file is uploaded and recorded, the upload target of the
    /// manifest of the uploaded files; or the error met on the way.
    pub open spec fn advanced(&self, a: ArtifactAction) -> bool {
        if self.next() < self.files().len() {
            let f = self.files()[self.next() as int];
            match self.given()[self.next() as int] {
                None => {
                    &&& self.phase() == ArtifactPhase::Finished
                    &&& a matches ArtifactAction::Done(Err(ApiError::NoResponse(m)))
                    &&& m@ == "CreateArtifactFiles returned an empty file node"@
                },
                Some(n) => match n.upload_url {
                    None => {
                        &&& self.phase() == ArtifactPhase::Finished
                        &&& a matches ArtifactAction::Done(Err(ApiError::NoResponse(m)))
                        &&& m@ == "CreateArtifactFiles returned no upload URL for "@ + f.name@
                    },
                    Some(u) => {
                        &&& self.phase() == ArtifactPhase::UploadingFiles
                        &&& a matches ArtifactAction::Upload { url, headers, bytes }
                        &&& url@ == u@
                        &&& headers == n.upload_headers
                        &&& bytes@ == f.bytes@
                    },
                },
            }
        } else {
            let o = manifest_order_of(names_of(self.uploaded()));
            &&& self.next() == self.files().len()
            &&& self.uploaded().len() == self.files().len()
            &&& forall|k: int|
                0 <= k < self.files().len() ==> recorded_at(
                    #[trigger] self.given()[k],
                    self.uploaded()[k],
                    self.files()[k],
                )
            &&& self.phase() == ArtifactPhase::CreatingManifest
            &&& self.manifest() == vstd::utf8::encode_utf8(manifest_json(self.uploaded(), o))
            &&& a matches ArtifactAction::CreateManifest { artifact_id, digest }
            &&& artifact_id@ == self.artifact_id()
            &&& digest@ == base64_standard(md5_digest(self.manifest()))
        }
    }

    /// Starts logging an artifact named `name` with the given files: its
    /// first request creates it, with the digest of its name, under the
    /// given aliases or `latest`.
    pub fn start(name: &str, files: Vec<ArtifactUploadFile>, aliases: Option<Vec<String>>) -> (r: (
        ArtifactFlow,
        ArtifactAction,
    ))
        ensures
            r.0.wf(),
            r.0.phase() == ArtifactPhase::CreatingArtifact,
            r.0.files() == files@,
            r.1 matches ArtifactAction::CreateArtifact { digest, aliases: al } && digest@
                == base64_standard(md5_digest(vstd::utf8::encode_utf8(name@))) && match aliases {
                Some(a) => al == a,
                None => al@.len() == 1 && al@[0]@ == "latest"@,
            },
    {
        let digest = initial_digest(name);
        let aliases = aliases_or_latest(aliases);
        let flow = ArtifactFlow {
            phase: ArtifactPhase::CreatingArtifact,
            files,
            artifact_id: String::new(),
            nodes: Vec::new(),
            given: Ghost(Seq::empty()),
            next: 0,
            storage_path: None,
            uploaded: Vec::new(),
            manifest: Vec::new(),
        };
        (flow, ArtifactAction::CreateArtifact { digest, aliases })
    }

    /// Goes on once the artifact is created (or not): the next request asks
    /// for upload targets for its files.
    pub fn on_artifact_created(&mut self, created: Result<String, ApiError>) -> (a: ArtifactAction)
        requires
            old(self).wf(),
            old(self).phase() == ArtifactPhase::CreatingArtifact,
        ensures
            final(self).wf(),
            final(self).files() == old(self).files(),
            match created {
                Err(e) => final(self).phase() == ArtifactPhase::Finished && a == ArtifactAction::Done(
                    Err(e),
                ),
                Ok(id) => {
                    &&& final(self).phase() == ArtifactPhase::CreatingFiles
                    &&& final(self).artifact_id() == id@
                    &&& a matches ArtifactAction::CreateFiles { artifact_id, files }
                    &&& artifact_id@ == id@
                    &&& file_specs_match(files@, final(self).files())
                },
            },
    {
        match created {
            Err(e) => {
                self.phase = ArtifactPhase::Finished;
                ArtifactAction::Done(Err(e))
            },
            Ok(id) => {
                let mut specs: Vec<(String, String)> = Vec::new();
                let mut k: usize = 0;
                while k < self.files.len()
                    invariant
                        k <= self.files@.len(),
                        specs@.len() == k,
                        forall|j: int|
                            0 <= j < k ==> (#[trigger] specs@[j]).0@ == self.files@[j].name@
                                && specs@[j].1@ == self.files@[j].digest@,
                    decreases self.files@.len() - k,
                {
                    specs.push((self.files[k].name.clone(), self.files[k].digest.clone()));
                    k = k + 1;
                }
                self.artifact_id = id.clone();
                self.phase = ArtifactPhase::CreatingFiles;
                ArtifactAction::CreateFiles { artifact_id: id, files: specs }
            },
        }
    }

    /// What a consistent state says of the uploaded files: the first
    /// `next()` files are uploaded, each recorded with the storage path the
    /// backend named for it.
    pub proof fn lemma_uploaded(&self)
        requires
            self.wf(),
        ensures
            self.uploaded().len() == self.next(),
            self.next() <= self.files().len(),
            self.next() <= self.given().len(),
            forall|k: int|
                0 <= k < self.next() ==> recorded_at(
                    #[trigger] self.given()[k],
                    self.uploaded()[k],
                    self.files()[k],
                ),
    {
    }

    /// The request that follows the upload of the first `next` files.
    fn advance(&mut self) -> (a: ArtifactAction)
        requires
            old(self).wf(),
            old(self).phase() == ArtifactPhase::CreatingFiles,
            old(self).files().len() <= old(self).given().len(),
        ensures
            final(self).wf(),
            final(self).files() == old(self).files(),
            final(self).given() == old(self).given(),
            final(self).next() == old(self).next(),
            final(self).uploaded() == old(self).uploaded(),
            final(self).artifact_id() == old(self).artifact_id(),
            final(self).advanced(a),
    {
        if self.next < self.files.len() {
            let i = self.next;
            let mut node: Option<ArtifactFileNode> = None;
            self.nodes.set_and_swap(i, &mut node);
            assert(node == self.given@[i as int]);
            match artifact_upload_target(self.files[i].name.as_str(), node) {
                Err(e) => {
                    self.phase = ArtifactPhase::Finished;
                    ArtifactAction::Done(Err(e))
                },
                Ok((url, headers, storage)) => {
                    self.storage_path = storage;
                    self.phase = ArtifactPhase::UploadingFiles;
                    let bytes = self.files[i].bytes.clone();
                    assert(bytes@ =~= self.files@[i as int].bytes@);
                    ArtifactAction::Upload { url, headers, bytes }
                },
            }
        } else {
            let text = match build_manifest(&self.uploaded) {
                Ok(t) => t,
                Err(_) => String::new(),
            };
            let bytes = text.as_str().as_bytes_vec();
            let digest = digest_bytes(bytes.as_slice());
            self.manifest = bytes;
            self.phase = ArtifactPhase::CreatingManifest;
            ArtifactAction::CreateManifest { artifact_id: self.artifact_id.clone(), digest }
        }
    }

    /// Goes on once the upload targets of the files are given (or not):
    /// every file needs one, and the files are uploaded in order.
    pub fn on_files_created(&mut self, nodes: Result<Vec<Option<ArtifactFileNode>>, ApiError>) -> (a:
        ArtifactAction)
        requires
            old(self).wf(),
            old(self).phase() == ArtifactPhase::CreatingFiles,
        ensures
            final(self).wf(),
            final(self).files() == old(self).files(),
            final(self).artifact_id() == old(self).artifact_id(),
            match nodes {
                Err(e) => final(self).phase() == ArtifactPhase::Finished && a == ArtifactAction::Done(
                    Err(e),
                ),
                Ok(n) => if n@.len() < old(self).files().len() {
                    &&& final(self).phase() == ArtifactPhase::Finished
                    &&& a matches ArtifactAction::Done(Err(ApiError::NoResponse(m)))
                    &&& m@ == "CreateArtifactFiles returned fewer file nodes than files"@
                } else {
                    &&& final(self).given() == n@
                    &&& final(self).next() == 0
                    &&& final(self).uploaded().len() == 0
                    &&& final(self).advanced(a)
                },
            },
    {
        match nodes {
            Err(e) => {
                self.phase = ArtifactPhase::Finished;
                ArtifactAction::Done(Err(e))
            },
            Ok(n) => {
                if n.len() < self.files.len() {
                    self.phase = ArtifactPhase::Finished;
                    return ArtifactAction::Done(
                        Err(
                            ApiError::NoResponse(
                                "CreateArtifactFiles returned fewer file nodes than files".to_string(),
                            ),
                        ),
                    );
                }
                let ghost given = n@;
                self.nodes = n;
                self.given = Ghost(given);
                self.next = 0;
                self.uploaded = Vec::new();
                self.advance()
            },
        }
    }

    /// Goes on once the last upload is done: after a file, the next file
    /// (once the file is recorded with the storage path the backend named
    /// for it); after the manifest, the commit.
    pub fn on_uploaded(&mut self) -> (a: ArtifactAction)
        requires
            old(self).wf(),
            old(self).phase() == ArtifactPhase::UploadingFiles || old(self).phase()
                == ArtifactPhase::UploadingManifest,
        ensures
            final(self).wf(),
            final(self).files() == old(self).files(),
            final(self).artifact_id() == old(self).artifact_id(),
            old(self).phase() == ArtifactPhase::UploadingManifest ==> {
                &&& final(self).phase() == ArtifactPhase::Committing
                &&& a matches ArtifactAction::Commit { artifact_id }
                &&& artifact_id@ == old(self).artifact_id()
            },
            old(self).phase() == ArtifactPhase::UploadingFiles ==> {
                let f = old(self).files()[old(self).next() as int];
                match old(self).given()[old(self).next() as int] {
                    Some(n) => match n.storage_path {
                        None => {
                            &&& final(self).phase() == ArtifactPhase::Finished
                            &&& a matches ArtifactAction::Done(Err(ApiError::NoResponse(m)))
                            &&& m@ == "CreateArtifactFiles returned no storage path for "@ + f.name@
                        },
                        Some(p) => {
                            &&& final(self).next() == old(self).next() + 1
                            &&& final(self).uploaded().len() == final(self).next()
                            &&& final(self).uploaded().len() == old(self).uploaded().len() + 1
                            &&& final(self).uploaded().drop_last() == old(self).uploaded()
                            &&& records_upload(final(self).uploaded().last(), f, p@)
                            &&& final(self).given() == old(self).given()
                            &&& final(self).advanced(a)
                        },
                    },
                    None => false,
                }
            },
    {
        if self.phase == ArtifactPhase::UploadingManifest {
            self.phase = ArtifactPhase::Committing;
            return ArtifactAction::Commit { artifact_id: self.artifact_id.clone() };
        }
        let i = self.next;
        let count = self.files.len();
        let storage = self.storage_path.take();
        match uploaded_file(&self.files[i], storage) {
            Err(e) => {
                self.phase = ArtifactPhase::Finished;
                ArtifactAction::Done(Err(e))
            },
            Ok(u) => {
                let ghost before = self.uploaded@;
                self.uploaded.push(u);
                self.next = i + 1;
                self.phase = ArtifactPhase::CreatingFiles;
                assert(self.uploaded@.drop_last() =~= before);
                assert forall|k: int| 0 <= k < self.next implies recorded_at(
                    #[trigger] self.given@[k],
                    self.uploaded@[k],
                    self.files@[k],
                ) by {
                    if k < i {
                        assert(self.uploaded@[k] == before[k]);
                    }
                }
                self.advance()
            },
        }
    }

    /// Goes on once the upload target of the manifest is given (or not):
    /// the next request uploads the manifest.
    pub fn on_manifest_created(&mut self, target: Result<(String, Vec<String>), ApiError>) -> (a:
        ArtifactAction)
        requires
            old(self).wf(),
            old(self).phase() == ArtifactPhase::CreatingManifest,
        ensures
            final(self).wf(),
            final(self).manifest() == old(self).manifest(),
            final(self).artifact_id() == old(self).artifact_id(),
            match target {
                Err(e) => final(self).phase() == ArtifactPhase::Finished && a == ArtifactAction::Done(
                    Err(e),
                ),
                Ok(t) => {
                    &&& final(self).phase() == ArtifactPhase::UploadingManifest
                    &&& a matches ArtifactAction::Upload { url, headers, bytes }
                    &&& url == t.0
                    &&& headers == t.1
                    &&& bytes@ == old(self).manifest()
                },
            },
    {
        match target {
            Err(e) => {
                self.phase = ArtifactPhase::Finished;
                ArtifactAction::Done(Err(e))
            },
            Ok((url, headers)) => {
                self.phase = ArtifactPhase::UploadingManifest;
                let bytes = self.manifest.clone();
                assert(bytes@ =~= self.manifest@);
                ArtifactAction::Upload { url, headers, bytes }
            },
        }
    }

    /// Ends once the commit is done (or not), with its outcome.
    pub fn on_committed(&mut self, committed: Result<(), ApiError>) -> (a: ArtifactAction)
        requires
            old(self).wf(),
            old(self).phase() == ArtifactPhase::Committing,
        ensures
            final(self).wf(),
            final(self).phase() == ArtifactPhase::Finished,
            a == ArtifactAction::Done(committed),
    {
        self.phase = ArtifactPhase::Finished;
        ArtifactAction::Done(committed)
    }
}

// ---------------------------------------------------------------------------
// Logging a row
// ---------------------------------------------------------------------------

/// Where the logging of a row stands.
#[derive(PartialEq, Eq, Structural, Clone, Copy)]
pub enum RowPhase {
    /// Waiting for the upload targets of its media files.
    CreatingFiles,
    /// Waiting for the upload of one of its media files.
    Uploading,
    /// Its media are uploaded: the row can be completed and sent.
    Ready,
    /// Over, with an error.
    Failed,
}

/// The request the logging of a row makes next.
pub enum RowAction {
    /// Ask for upload targets for the media files at these run paths.
    CreateRunFiles { paths: Vec<String> },
    /// Upload `bytes` to `url`, sending `headers`.
    Upload { url: String, headers: Vec<String>, bytes: Vec<u8> },
    /// Complete the row and send it.
    Post,
    /// The logging failed with this error.
    Fail(ApiError),
}

/// The logging of a row with media.
pub struct RowFlow {
    phase: RowPhase,
    scalars: LogData,
    records: Vec<(String, DataValue)>,
    uploads: Vec<(String, Vec<u8>)>,
    targets: Vec<RunFileUpload>,
    headers: Vec<String>,
    next: usize,
}

/// The run path and bytes of each media file of a row logged at `step`.
pub open spec fn media_files(media: Seq<(String, crate::media::MediaFile)>, step: u64) -> Seq<
    (Seq<char>, Seq<u8>),
> {
    Seq::new(media.len(), |i: int| (record_path(media[i].1@, media[i].0@, step), media[i].1@.bytes))
}

/// The history record of each media file of a row logged at `step`, under
/// its key.
pub open spec fn media_records(media: Seq<(String, crate::media::MediaFile)>, step: u64) -> Seq<
    (Seq<char>, DataValueView),
> {
    Seq::new(
        media.len(),
        |i: int| (media[i].0@, DataValueView::Dict(record_map(media[i].1@, media[i].0@, step))),
    )
}

/// The views of a list of files to upload.
pub open spec fn uploads_view(s: Seq<(String, Vec<u8>)>) -> Seq<(Seq<char>, Seq<u8>)> {
    s.map_values(|p: (String, Vec<u8>)| (p.0@, p.1@))
}

impl RowFlow {
    /// Where the logging stands.
    pub closed spec fn phase(&self) -> RowPhase {
        self.phase
    }

    /// The scalars of the row.
    pub closed spec fn scalars(&self) -> Map<Seq<char>, DataValueView> {
        self.scalars@
    }

    /// The records of its media, stored in the row once they are uploaded.
    pub closed spec fn records(&self) -> Seq<(Seq<char>, DataValueView)> {
        records_view(self.records@)
    }

    /// The run path and bytes of each of its media files.
    pub closed spec fn uploads(&self) -> Seq<(Seq<char>, Seq<u8>)> {
        uploads_view(self.uploads@)
    }

    /// The upload targets the backend gave.
    pub closed spec fn targets(&self) -> Seq<RunFileUpload> {
        self.targets@
    }

    /// The headers to send with each upload.
    pub closed spec fn headers(&self) -> Seq<String> {
        self.headers@
    }

    /// How many media files are uploaded.
    pub closed spec fn next(&self) -> nat {
        self.next as nat
    }

    /// The state is consistent: no more files are uploaded than there are,
    /// and while one is being uploaded, it is one of them.
    pub closed spec fn wf(&self) -> bool {
        &&& self.uploads@.len() <= usize::MAX
        &&& self.next <= self.uploads@.len()
        &&& self.phase == RowPhase::Uploading ==> self.next < self.uploads@.len()
    }

    /// What follows the upload of the first `next()` files: the upload of
    /// the next one to the URL the backend gave for its path, or the error
    /// that it gave none; once all are uploaded, the row is ready.
    pub open spec fn advanced(&self, a: RowAction) -> bool {
        if self.next() < self.uploads().len() {
            let f = self.uploads()[self.next() as int];
            match upload_url_of(self.targets(), f.0) {
                Some(u) => {
                    &&& self.phase() == RowPhase::Uploading
                    &&& a matches RowAction::Upload { url, headers, bytes }
                    &&& url@ == u
                    &&& headers@ == self.headers()
                    &&& bytes@ == f.1
                },
                None => {
                    &&& self.phase() == RowPhase::Failed
                    &&& a matches RowAction::Fail(ApiError::NoResponse(m))
                    &&& m@ == "no upload URL for "@ + f.0
                },
            }
        } else {
            self.phase() == RowPhase::Ready && a is Post
        }
    }

    /// Whether the row, its media records and files stayed as they were.
    pub open spec fn same_row(&self, other: &RowFlow) -> bool {
        &&& self.scalars() == other.scalars()
        &&& self.records() == other.records()
        &&& self.uploads() == other.uploads()
    }

    /// Starts logging `row` at `step`: with media, its first request asks
    /// for upload targets for their files; without, the row is ready.
    pub fn start(row: ParsedRow, step: u64) -> (r: (RowFlow, RowAction))
        ensures
            r.0.wf(),
            r.0.next() == 0,
            r.0.scalars() == row.scalars@,
            r.0.records() == media_records(row.media@, step),
            r.0.uploads() == media_files(row.media@, step),
            row.media@.len() == 0 ==> r.0.phase() == RowPhase::Ready && r.1 is Post,
            row.media@.len() > 0 ==> {
                &&& r.0.phase() == RowPhase::CreatingFiles
                &&& r.1 matches RowAction::CreateRunFiles { paths }
                &&& paths@.len() == row.media@.len()
                &&& forall|i: int|
                    0 <= i < paths@.len() ==> (#[trigger] paths@[i])@ == media_files(
                        row.media@,
                        step,
                    )[i].0
            },
    {
        let ParsedRow { scalars, media } = row;
        let (uploads, records) = media_uploads(&media, step);
        proof {
            assert forall|i: int| 0 <= i < media@.len() implies #[trigger] records_view(records@)[i]
                == media_records(media@, step)[i] && uploads_view(uploads@)[i] == media_files(
                media@,
                step,
            )[i] by {
                assert(records_view(records@)[i] == (records@[i].0@, records@[i].1@));
                assert(uploads_view(uploads@)[i] == (uploads@[i].0@, uploads@[i].1@));
            }
            assert(records_view(records@) =~= media_records(media@, step));
            assert(uploads_view(uploads@) =~= media_files(media@, step));
        }
        let mut paths: Vec<String> = Vec::new();
        let mut i: usize = 0;
        while i < uploads.len()
            invariant
                i <= uploads@.len(),
                paths@.len() == i,
                forall|j: int| 0 <= j < i ==> (#[trigger] paths@[j])@ == uploads@[j].0@,
            decreases uploads@.len() - i,
        {
            paths.push(uploads[i].0.clone());
            i = i + 1;
        }
        let phase = if media.len() == 0 {
            RowPhase::Ready
        } else {
            RowPhase::CreatingFiles
        };
        let flow = RowFlow {
            phase,
            scalars,
            records,
            uploads,
            targets: Vec::new(),
            headers: Vec::new(),
            next: 0,
        };
        if media.len() == 0 {
            (flow, RowAction::Post)
        } else {
            (flow, RowAction::CreateRunFiles { paths })
        }
    }

    /// The request that follows the upload of the first `next` files.
    fn advance(&mut self) -> (a: RowAction)
        requires
            old(self).uploads@.len() <= usize::MAX,
            old(self).next <= old(self).uploads@.len(),
        ensures
            final(self).wf(),
            final(self).same_row(old(self)),
            final(self).targets() == old(self).targets(),
            final(self).headers() == old(self).headers(),
            final(self).next() == old(self).next(),
            final(self).advanced(a),
    {
        if self.next < self.uploads.len() {
            let i = self.next;
            match upload_url_for(self.uploads[i].0.as_str(), &self.targets) {
                Ok(url) => {
                    self.phase = RowPhase::Uploading;
                    let headers = self.headers.clone();
                    let bytes = self.uploads[i].1.clone();
                    proof {
                        assert(headers@ =~= self.headers@);
                        assert(bytes@ =~= self.uploads@[i as int].1@);
                    }
                    RowAction::Upload { url, headers, bytes }
                },
                Err(e) => {
                    self.phase = RowPhase::Failed;
                    RowAction::Fail(e)
                },
            }
        } else {
            self.phase = RowPhase::Ready;
            RowAction::Post
        }
    }

    /// Goes on once the upload targets are given (or not): the media files
    /// are uploaded in order.
    pub fn on_upload_targets(&mut self, targets: Result<CreateRunFilesPayload, ApiError>) -> (a:
        RowAction)
        requires
            old(self).wf(),
            old(self).phase() == RowPhase::CreatingFiles,
        ensures
            final(self).wf(),
            final(self).same_row(old(self)),
            match targets {
                Err(e) => final(self).phase() == RowPhase::Failed && a == RowAction::Fail(e),
                Ok(p) => {
                    &&& final(self).targets() == p.files@
                    &&& final(self).headers() == p.upload_headers@
                    &&& final(self).next() == 0
                    &&& final(self).advanced(a)
                },
            },
    {
        match targets {
            Err(e) => {
                self.phase = RowPhase::Failed;
                RowAction::Fail(e)
            },
            Ok(p) => {
                let CreateRunFilesPayload { files, upload_headers } = p;
                self.targets = files;
                self.headers = upload_headers;
                self.next = 0;
                self.advance()
            },
        }
    }

    /// Goes on once a media file is uploaded: the next one, or the row.
    pub fn on_uploaded(&mut self) -> (a: RowAction)
        requires
            old(self).wf(),
            old(self).phase() == RowPhase::Uploading,
        ensures
            final(self).wf(),
            final(self).same_row(old(self)),
            final(self).targets() == old(self).targets(),
            final(self).headers() == old(self).headers(),
            final(self).next() == old(self).next() + 1,
            final(self).advanced(a),
    {
        self.next = self.next + 1;
        self.advance()
    }

    /// The row to send, once its media are uploaded: the scalars with the
    /// media records, and the time of logging (the bit pattern of a number
    /// of seconds) under `_timestamp` unless the row has one.
    pub fn finish(self, timestamp_bits: u64) -> (r: LogData)
        requires
            self.phase() == RowPhase::Ready,
        ensures
            r@ == logged_row(self.scalars(), self.records(), timestamp_bits),
    {
        finish_row(self.scalars, self.records, timestamp_bits)
    }
}

} // verus!
