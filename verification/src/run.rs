//! A wandb run: where its files and history go, how a logged row is put
//! together with its media records, and the decisions taken while its
//! media and artifacts are uploaded.

use vstd::prelude::*;

use crate::data_value::{DataValue, DataValueView, LogData};
use crate::digest::{base64_standard, digest_bytes, md5_digest};
use crate::error::ApiError;
use crate::gql::{ArtifactFileNode, RunFileUpload};
use crate::manifest::{ArtifactUploadFile, UploadedArtifactFile};
use crate::media::{record_map, record_path, with_pairs, MediaFile};
use crate::text::{
    chars_of, decimal, find_char, opt_view, push_decimal, str_equal, trim_range, trimmed,
};

verus! {

broadcast use vstd::string::group_string_axioms;

/// The identity of a run: the backend's base URL and the run's entity,
/// project and name.
pub struct RunState {
    base_url: String,
    entity: String,
    project: String,
    name: String,
}

/// The content of a [`RunState`].
pub struct RunStateView {
    pub base_url: Seq<char>,
    pub entity: Seq<char>,
    pub project: Seq<char>,
    pub name: Seq<char>,
}

impl View for RunState {
    type V = RunStateView;

    closed spec fn view(&self) -> RunStateView {
        RunStateView {
            base_url: self.base_url@,
            entity: self.entity@,
            project: self.project@,
            name: self.name@,
        }
    }
}

/// The file-stream endpoint of a run.
pub open spec fn spec_run_path(s: RunStateView) -> Seq<char> {
    s.base_url + "/files/"@ + s.entity + "/"@ + s.project + "/"@ + s.name + "/file_stream"@
}

/// The GraphQL endpoint of a backend.
pub open spec fn spec_graphql_url(base_url: Seq<char>) -> Seq<char> {
    base_url + "/graphql"@
}

/// The GraphQL endpoint under the base URL `base_url`.
pub fn graphql_url(base_url: &str) -> (r: String)
    ensures
        r@ == spec_graphql_url(base_url@),
{
    let mut s = String::new();
    s.append(base_url);
    s.append("/graphql");
    s
}

impl RunState {
    /// The state of the run `entity/project/name` on the backend at
    /// `base_url`.
    pub fn new(base_url: String, entity: String, project: String, name: String) -> (r: RunState)
        ensures
            r@ == (RunStateView {
                base_url: base_url@,
                entity: entity@,
                project: project@,
                name: name@,
            }),
    {
        RunState { base_url, entity, project, name }
    }

    /// The run's entity.
    pub fn entity(&self) -> (r: &String)
        ensures
            r@ == self@.entity,
    {
        &self.entity
    }

    /// The run's project.
    pub fn project(&self) -> (r: &String)
        ensures
            r@ == self@.project,
    {
        &self.project
    }

    /// The run's name.
    pub fn name(&self) -> (r: &String)
        ensures
            r@ == self@.name,
    {
        &self.name
    }

    /// The backend's GraphQL endpoint.
    pub fn graphql_url(&self) -> (r: String)
        ensures
            r@ == spec_graphql_url(self@.base_url),
    {
        graphql_url(self.base_url.as_str())
    }

    /// The run's file-stream endpoint:
    /// `{base_url}/files/{entity}/{project}/{name}/file_stream`.
    pub fn run_path(&self) -> (r: String)
        ensures
            r@ == spec_run_path(self@),
    {
        let mut s = String::new();
        s.append(self.base_url.as_str());
        s.append("/files/");
        s.append(self.entity.as_str());
        s.append("/");
        s.append(self.project.as_str());
        s.append("/");
        s.append(self.name.as_str());
        s.append("/file_stream");
        s
    }
}

// ---------------------------------------------------------------------------
// Logging a row
// ---------------------------------------------------------------------------

/// The files to upload and the records to log for media logged at `step`:
/// one of each per media value, in order.
pub fn media_uploads(media: &Vec<(String, MediaFile)>, step: u64) -> (r: (
    Vec<(String, Vec<u8>)>,
    Vec<(String, DataValue)>,
))
    ensures
        r.0@.len() == media@.len(),
        r.1@.len() == media@.len(),
        forall|i: int|
            0 <= i < media@.len() ==> {
                &&& (#[trigger] r.0@[i]).0@ == record_path(media@[i].1@, media@[i].0@, step)
                &&& r.0@[i].1@ == media@[i].1@.bytes
                &&& r.1@[i].0@ == media@[i].0@
                &&& r.1@[i].1@ == DataValueView::Dict(record_map(media@[i].1@, media@[i].0@, step))
            },
{
    let mut uploads: Vec<(String, Vec<u8>)> = Vec::new();
    let mut records: Vec<(String, DataValue)> = Vec::new();
    let mut i: usize = 0;
    while i < media.len()
        invariant
            i <= media@.len(),
            uploads@.len() == i,
            records@.len() == i,
            forall|j: int|
                0 <= j < i ==> {
                    &&& (#[trigger] uploads@[j]).0@ == record_path(media@[j].1@, media@[j].0@, step)
                    &&& uploads@[j].1@ == media@[j].1@.bytes
                    &&& records@[j].0@ == media@[j].0@
                    &&& records@[j].1@ == DataValueView::Dict(
                        record_map(media@[j].1@, media@[j].0@, step),
                    )
                },
        decreases media@.len() - i,
    {
        let key = &media[i].0;
        let file = &media[i].1;
        let (path, record) = file.record(key.as_str(), step);
        let bytes = file.bytes().clone();
        assert(bytes@ =~= media@[i as int].1@.bytes);
        let ghost u0 = uploads@;
        let ghost r0 = records@;
        uploads.push((path, bytes));
        records.push((key.clone(), record));
        assert forall|j: int| 0 <= j < i implies #[trigger] uploads@[j] == u0[j] && records@[j] == r0[j] by {}
        i = i + 1;
    }
    (uploads, records)
}

/// The metric under which the time of logging is recorded.
pub open spec fn timestamp_key() -> Seq<char> {
    "_timestamp"@
}

/// The views of a list of named values.
pub open spec fn records_view(s: Seq<(String, DataValue)>) -> Seq<(Seq<char>, DataValueView)> {
    s.map_values(|p: (String, DataValue)| (p.0@, p.1@))
}

/// The row logged: the scalars, with each media record stored under its
/// key (replacing any scalar of that name), and the time of logging under
/// `_timestamp` unless the row already has a value there.
pub open spec fn logged_row(
    scalars: Map<Seq<char>, DataValueView>,
    records: Seq<(Seq<char>, DataValueView)>,
    timestamp_bits: u64,
) -> Map<Seq<char>, DataValueView> {
    let m = with_pairs(scalars, records);
    if m.contains_key(timestamp_key()) {
        m
    } else {
        m.insert(timestamp_key(), DataValueView::Float(timestamp_bits))
    }
}

/// What a logged row holds: a `_timestamp` always; under each media key,
/// the last record logged for it; and, under any other key, what the
/// scalars held, a `_timestamp` the user gave included.
pub proof fn law_logged_row(
    scalars: Map<Seq<char>, DataValueView>,
    records: Seq<(Seq<char>, DataValueView)>,
    timestamp_bits: u64,
    k: Seq<char>,
)
    ensures
        logged_row(scalars, records, timestamp_bits).contains_key(timestamp_key()),
        forall|i: int|
            0 <= i < records.len() && records[i].0 == k && (forall|j: int|
                i < j < records.len() ==> records[j].0 != k) ==> logged_row(
                scalars,
                records,
                timestamp_bits,
            ).contains_key(k) && logged_row(scalars, records, timestamp_bits)[k] == records[i].1,
        (forall|i: int| 0 <= i < records.len() ==> records[i].0 != k) && scalars.contains_key(k)
            ==> logged_row(scalars, records, timestamp_bits).contains_key(k) && logged_row(
            scalars,
            records,
            timestamp_bits,
        )[k] == scalars[k],
        (forall|i: int| 0 <= i < records.len() ==> records[i].0 != timestamp_key())
            && !scalars.contains_key(timestamp_key()) ==> logged_row(
            scalars,
            records,
            timestamp_bits,
        )[timestamp_key()] == DataValueView::Float(timestamp_bits),
{
    crate::media::lemma_with_pairs(scalars, records, k);
    crate::media::lemma_with_pairs(scalars, records, timestamp_key());
}

/// Completes a row once its media are uploaded: stores each record under
/// its key, then the time of logging (the bit pattern of a number of
/// seconds) unless the row has a `_timestamp` already.
pub fn finish_row(scalars: LogData, records: Vec<(String, DataValue)>, timestamp_bits: u64) -> (r:
    LogData)
    ensures
        r@ == logged_row(scalars@, records_view(records@), timestamp_bits),
{
    let mut row = scalars;
    let ghost start = row@;
    let mut records = records;
    let ghost all = records_view(records@);
    let mut taken: Vec<(String, DataValue)> = Vec::new();
    // take the records out in reverse, then store them in order
    while records.len() > 0
        invariant
            records_view(records@) + records_view(taken@).reverse() == all,
        decreases records@.len(),
    {
        let ghost before_r = records@;
        let ghost before_t = taken@;
        let p = records.pop().unwrap();
        taken.push(p);
        proof {
            assert(records_view(before_r) =~= records_view(records@).push((p.0@, p.1@)));
            assert(records_view(taken@).reverse() =~= seq![(p.0@, p.1@)] + records_view(
                before_t,
            ).reverse());
            assert(records_view(records@) + records_view(taken@).reverse() =~= records_view(
                before_r,
            ) + records_view(before_t).reverse());
        }
    }
    assert(records_view(records@) =~= Seq::<(Seq<char>, DataValueView)>::empty());
    assert(records_view(taken@).reverse() =~= all);
    let mut done: usize = 0;
    let n = taken.len();
    while taken.len() > 0
        invariant
            n == all.len(),
            done + taken@.len() == n,
            records_view(taken@).reverse() == all.skip(done as int),
            row@ == with_pairs(start, all.take(done as int)),
        decreases taken@.len(),
    {
        let ghost before_t = taken@;
        let (k, v) = taken.pop().unwrap();
        proof {
            assert(records_view(before_t) =~= records_view(taken@).push((k@, v@)));
            assert(records_view(before_t).reverse() =~= seq![(k@, v@)] + records_view(
                taken@,
            ).reverse());
            assert(all.skip(done as int)[0] == (k@, v@));
            assert(all.skip(done + 1) =~= all.skip(done as int).drop_first());
            assert(all.take(done + 1).drop_last() =~= all.take(done as int));
            assert(all.take(done + 1).last() == (k@, v@));
        }
        row.insert(k, v);
        done = done + 1;
    }
    assert(all.take(done as int) =~= all);
    row.insert_default("_timestamp".to_string(), DataValue::Float(timestamp_bits));
    row
}

// ---------------------------------------------------------------------------
// Uploads
// ---------------------------------------------------------------------------

/// The name and value of an upload header `name: value`: the text around
/// the first `:`, each without surrounding white space; none if there is
/// no `:`.
pub open spec fn header_pair(h: Seq<char>) -> Option<(Seq<char>, Seq<char>)> {
    if exists|i: int| 0 <= i < h.len() && h[i] == ':' {
        let i = choose|i: int| 0 <= i < h.len() && h[i] == ':' && forall|j: int| 0 <= j < i ==> h[j] != ':';
        Some((trimmed(h.take(i)), trimmed(h.skip(i + 1))))
    } else {
        None
    }
}

/// Parses an upload header `name: value`.
pub fn parse_upload_header(h: &str) -> (r: Option<(String, String)>)
    ensures
        match r {
            Some(p) => header_pair(h@) == Some((p.0@, p.1@)),
            None => header_pair(h@) is None,
        },
{
    let v = chars_of(h);
    match find_char(&v, ':') {
        Some(i) => {
            let k = trim_range(&v, 0, i);
            let val = trim_range(&v, i + 1, v.len());
            proof {
                assert(exists|j: int| 0 <= j < h@.len() && h@[j] == ':');
                let c = choose|j: int| 0 <= j < h@.len() && h@[j] == ':' && forall|l: int| 0 <= l < j ==> h@[l] != ':';
                if c < i {
                } else if c > i {
                }
                assert(c == i);
                assert(v@.subrange(0, i as int) =~= h@.take(i as int));
                assert(v@.subrange(i + 1, v@.len() as int) =~= h@.skip(i + 1));
            }
            Some((k, val))
        },
        None => None,
    }
}

/// The upload URL the server gave for `path`: the last entry named `path`
/// decides, as when the entries are collected into a map.
pub open spec fn upload_url_of(files: Seq<RunFileUpload>, path: Seq<char>) -> Option<Seq<char>>
    decreases files.len(),
{
    if files.len() == 0 {
        None
    } else if files.last().name@ == path {
        opt_view(files.last().upload_url)
    } else {
        upload_url_of(files.drop_last(), path)
    }
}

/// The URL to upload the file at `path` to, or the error when the server
/// gave none.
pub fn upload_url_for(path: &str, files: &Vec<RunFileUpload>) -> (r: Result<String, ApiError>)
    ensures
        match upload_url_of(files@, path@) {
            Some(u) => r matches Ok(x) && x@ == u,
            None => r matches Err(ApiError::NoResponse(m)) && m@ == "no upload URL for "@ + path@,
        },
{
    let mut i = files.len();
    assert(files@.take(i as int) =~= files@);
    let mut m = String::new();
    m.append("no upload URL for ");
    m.append(path);
    while i > 0
        invariant
            i <= files@.len(),
            m@ == "no upload URL for "@ + path@,
            upload_url_of(files@, path@) == upload_url_of(files@.take(i as int), path@),
        decreases i,
    {
        let ghost pre = files@.take(i as int);
        assert(pre.last() == files@[i - 1]);
        assert(pre.drop_last() =~= files@.take(i - 1));
        if str_equal(files[i - 1].name.as_str(), path) {
            match &files[i - 1].upload_url {
                Some(u) => {
                    return Ok(u.clone());
                },
                None => {
                    return Err(ApiError::NoResponse(m));
                },
            }
        }
        i = i - 1;
    }
    Err(ApiError::NoResponse(m))
}

// ---------------------------------------------------------------------------
// Artifacts
// ---------------------------------------------------------------------------

/// A file of an artifact, ready to be uploaded: its name, bytes, and digest.
pub fn upload_file(name: String, bytes: Vec<u8>) -> (r: ArtifactUploadFile)
    ensures
        r.name@ == name@,
        r.bytes@ == bytes@,
        r.digest@ == base64_standard(md5_digest(bytes@)),
{
    let digest = digest_bytes(bytes.as_slice());
    ArtifactUploadFile { name, digest, bytes }
}

/// The digest an artifact is first created with: that of its name.
pub fn initial_digest(name: &str) -> (r: String)
    ensures
        r@ == base64_standard(md5_digest(vstd::utf8::encode_utf8(name@))),
{
    let bytes = name.as_bytes_vec();
    digest_bytes(bytes.as_slice())
}

/// The aliases an artifact is logged under: those given, or `latest`.
pub fn aliases_or_latest(aliases: Option<Vec<String>>) -> (r: Vec<String>)
    ensures
        match aliases {
            Some(a) => r == a,
            None => r@.len() == 1 && r@[0]@ == "latest"@,
        },
{
    match aliases {
        Some(a) => a,
        None => {
            let mut v: Vec<String> = Vec::new();
            v.push("latest".to_string());
            v
        },
    }
}

/// The prefix of the sequence client id of an artifact named `name`.
pub fn sequence_prefix(name: &str) -> (r: String)
    ensures
        r@ == name@ + "-sequence"@,
{
    let mut s = String::new();
    s.append(name);
    s.append("-sequence");
    s
}

/// The client id made at `nanos` nanoseconds after the Unix epoch:
/// `wandb-ft-{prefix}-{nanos}`.
pub open spec fn spec_client_id(prefix: Seq<char>, nanos: nat) -> Seq<char> {
    "wandb-ft-"@ + prefix + "-"@ + decimal(nanos)
}

/// A client id tells its prefix and time apart: two ids are equal exactly
/// when they were made with the same prefix at the same time (the time is
/// the digits after the last `-`).
pub proof fn law_client_id_injective(p1: Seq<char>, n1: nat, p2: Seq<char>, n2: nat)
    ensures
        spec_client_id(p1, n1) == spec_client_id(p2, n2) <==> (p1 == p2 && n1 == n2),
{
    if spec_client_id(p1, n1) == spec_client_id(p2, n2) {
        reveal_strlit("wandb-ft-");
        reveal_strlit("-");
        let s = spec_client_id(p1, n1);
        let (d1, d2) = (decimal(n1), decimal(n2));
        let a1 = "wandb-ft-"@ + p1 + "-"@;
        let a2 = "wandb-ft-"@ + p2 + "-"@;
        assert(s =~= a1 + d1);
        assert(s =~= a2 + d2);
        crate::text::lemma_decimal_digits(n1);
        crate::text::lemma_decimal_digits(n2);
        assert(a1[a1.len() - 1] == '-');
        assert(a2[a2.len() - 1] == '-');
        if d1.len() < d2.len() {
            let i = a1.len() - 1;
            assert(s[i] == a1[i]);
            assert(s[i] == d2[i - a2.len()]);
            assert(48 <= (d2[i - a2.len()] as u32));
        } else if d2.len() < d1.len() {
            let i = a2.len() - 1;
            assert(s[i] == a2[i]);
            assert(s[i] == d1[i - a1.len()]);
            assert(48 <= (d1[i - a1.len()] as u32));
        }
        assert(d1 =~= s.skip(a1.len() as int));
        assert(d2 =~= s.skip(a2.len() as int));
        crate::text::lemma_decimal_injective(n1, n2);
        assert(p1 =~= s.subrange(9, 9 + p1.len() as int));
        assert(p2 =~= s.subrange(9, 9 + p2.len() as int));
    }
}

/// The client id with the given prefix made at the given time.
pub fn client_id(prefix: &str, nanos: u128) -> (r: String)
    ensures
        r@ == spec_client_id(prefix@, nanos as nat),
{
    let mut s = String::new();
    s.append("wandb-ft-");
    s.append(prefix);
    s.append("-");
    push_decimal(&mut s, nanos);
    s
}

#[verifier::external_type_specification]
#[verifier::external_body]
pub struct ExSystemTime(std::time::SystemTime);

/// Calls `SystemTime::now`; nothing is claimed of the time it reads.
#[verifier::external_body]
fn system_now() -> std::time::SystemTime {
    std::time::SystemTime::now()
}

/// Calls `SystemTime::duration_since` with the Unix epoch; the result
/// depends on the clock, and nothing is claimed of it.
#[verifier::external_body]
fn since_epoch(t: std::time::SystemTime) -> Option<std::time::Duration> {
    t.duration_since(std::time::UNIX_EPOCH).ok()
}

/// Calls `Duration::as_nanos`; nothing is claimed of the value.
#[verifier::external_body]
fn duration_nanos(d: std::time::Duration) -> u128 {
    d.as_nanos()
}

/// A client id unique to this moment: `wandb-ft-{prefix}-{nanos}` where
/// `nanos` is the current time in nanoseconds since the Unix epoch. `None`
/// when the system clock reads a time before the epoch.
pub fn unique_client_id(prefix: &str) -> (r: Option<String>)
    ensures
        r matches Some(s) ==> exists|n: u128| s@ == spec_client_id(prefix@, n as nat),
{
    match since_epoch(system_now()) {
        Some(d) => {
            let n = duration_nanos(d);
            Some(client_id(prefix, n))
        },
        None => None,
    }
}

/// Where an artifact file is to be uploaded, from the node the server gave
/// for it: the upload URL and headers, and the storage path if any.
pub fn artifact_upload_target(file_name: &str, node: Option<ArtifactFileNode>) -> (r: Result<
    (String, Vec<String>, Option<String>),
    ApiError,
>)
    ensures
        match node {
            None => r matches Err(ApiError::NoResponse(m)) && m@
                == "CreateArtifactFiles returned an empty file node"@,
            Some(n) => match n.upload_url {
                None => r matches Err(ApiError::NoResponse(m)) && m@
                    == "CreateArtifactFiles returned no upload URL for "@ + file_name@,
                Some(u) => r matches Ok(t) && t.0@ == u@ && t.1 == n.upload_headers && t.2
                    == n.storage_path,
            },
        },
{
    let n = match node {
        Some(n) => n,
        None => {
            return Err(
                ApiError::NoResponse("CreateArtifactFiles returned an empty file node".to_string()),
            );
        },
    };
    match n.upload_url {
        Some(u) => Ok((u, n.upload_headers, n.storage_path)),
        None => {
            let mut m = String::new();
            m.append("CreateArtifactFiles returned no upload URL for ");
            m.append(file_name);
            Err(ApiError::NoResponse(m))
        },
    }
}

/// The record of an uploaded artifact file, given the storage path the
/// server named for it.
pub fn uploaded_file(file: &ArtifactUploadFile, storage_path: Option<String>) -> (r: Result<
    UploadedArtifactFile,
    ApiError,
>)
    ensures
        match storage_path {
            None => r matches Err(ApiError::NoResponse(m)) && m@
                == "CreateArtifactFiles returned no storage path for "@ + file.name@,
            Some(p) => r matches Ok(u) && u.name@ == file.name@ && u.digest@ == file.digest@
                && u.size == file.bytes@.len() && u.storage_path@ == p@,
        },
{
    match storage_path {
        Some(p) => Ok(
            UploadedArtifactFile {
                name: file.name.clone(),
                digest: file.digest.clone(),
                size: file.bytes.len() as u64,
                storage_path: p,
            },
        ),
        None => {
            let mut m = String::new();
            m.append("CreateArtifactFiles returned no storage path for ");
            m.append(file.name.as_str());
            Err(ApiError::NoResponse(m))
        },
    }
}

} // verus!
