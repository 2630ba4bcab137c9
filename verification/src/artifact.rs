//! Artifacts: named collections of files or in-memory byte entries, the
//! checks their names pass, and the snapshot taken when one is logged.

use vstd::prelude::*;

use crate::error::{fails_with, InputError, InputErrorKind};
use crate::text::{chars_of, opt_view};

verus! {

broadcast use vstd::string::group_string_axioms;

/// Where the bytes of an artifact entry come from.
pub enum ArtifactEntrySource {
    /// A local file, by path.
    File(String),
    /// Bytes held in memory.
    Bytes(Vec<u8>),
}

/// The content of an [`ArtifactEntrySource`].
pub enum EntrySourceView {
    File(Seq<char>),
    Bytes(Seq<u8>),
}

impl View for ArtifactEntrySource {
    type V = EntrySourceView;

    open spec fn view(&self) -> EntrySourceView {
        match self {
            ArtifactEntrySource::File(p) => EntrySourceView::File(p@),
            ArtifactEntrySource::Bytes(b) => EntrySourceView::Bytes(b@),
        }
    }
}

impl ArtifactEntrySource {
    /// A copy of the source.
    pub fn duplicate(&self) -> (r: ArtifactEntrySource)
        ensures
            r@ == self@,
    {
        match self {
            ArtifactEntrySource::File(p) => ArtifactEntrySource::File(p.clone()),
            ArtifactEntrySource::Bytes(b) => ArtifactEntrySource::Bytes(b.clone()),
        }
    }
}

/// One named entry of an artifact.
pub struct ArtifactEntry {
    pub name: String,
    pub source: ArtifactEntrySource,
}

/// The content of an [`ArtifactEntry`].
pub struct ArtifactEntryView {
    pub name: Seq<char>,
    pub source: EntrySourceView,
}

impl View for ArtifactEntry {
    type V = ArtifactEntryView;

    open spec fn view(&self) -> ArtifactEntryView {
        ArtifactEntryView { name: self.name@, source: self.source@ }
    }
}

impl ArtifactEntry {
    /// A copy of the entry.
    pub fn duplicate(&self) -> (r: ArtifactEntry)
        ensures
            r@ == self@,
    {
        ArtifactEntry { name: self.name.clone(), source: self.source.duplicate() }
    }
}

/// The views of a list of entries.
pub open spec fn entries_view(v: Seq<ArtifactEntry>) -> Seq<ArtifactEntryView> {
    v.map_values(|e: ArtifactEntry| e@)
}

/// A copy of a list of entries.
pub fn duplicate_entries(v: &Vec<ArtifactEntry>) -> (r: Vec<ArtifactEntry>)
    ensures
        entries_view(r@) == entries_view(v@),
{
    let mut r: Vec<ArtifactEntry> = Vec::new();
    let mut i: usize = 0;
    while i < v.len()
        invariant
            i <= v@.len(),
            r@.len() == i,
            entries_view(r@) == entries_view(v@).take(i as int),
        decreases v@.len() - i,
    {
        let e = v[i].duplicate();
        let ghost before = r@;
        r.push(e);
        assert forall|k: int| 0 <= k < i + 1 implies #[trigger] entries_view(r@)[k] == entries_view(v@).take(i + 1)[k] by {
            if k < i {
                assert(r@[k] == before[k]);
                assert(entries_view(before)[k] == entries_view(v@).take(i as int)[k]);
            } else {
                assert(r@[k] == e);
                assert(entries_view(v@)[k] == v@[k]@);
            }
        }
        assert(entries_view(r@) =~= entries_view(v@).take(i + 1));
        i = i + 1;
    }
    assert(entries_view(v@).take(i as int) =~= entries_view(v@));
    r
}

/// Whether `n` holds two dots at positions `i` and `i + 1`.
pub open spec fn dot_pair_at(n: Seq<char>, i: int) -> bool {
    0 <= i && i + 1 < n.len() && n[i] == '.' && n[i + 1] == '.'
}

/// Whether `n` holds two consecutive dots.
pub open spec fn has_dot_dot(n: Seq<char>) -> bool {
    exists|i: int| #[trigger] dot_pair_at(n, i)
}

/// An entry name is a non-empty relative path without `..`: it does not
/// start with `/` and holds no two consecutive dots.
pub open spec fn valid_entry_name(n: Seq<char>) -> bool {
    n.len() > 0 && n[0] != '/' && !has_dot_dot(n)
}

/// Why an entry name is refused, if it is.
pub open spec fn entry_name_problem(n: Seq<char>) -> Option<Seq<char>> {
    if n.len() == 0 {
        Some("artifact entry name must not be empty"@)
    } else if n[0] == '/' || has_dot_dot(n) {
        Some("artifact entry name must be a relative path without '..' components"@)
    } else {
        None
    }
}

/// Which entry names are refused: exactly the empty ones, those that start
/// with `/`, and those with two consecutive dots somewhere; every other
/// name, whatever characters it holds, is accepted.
pub proof fn law_entry_names(n: Seq<char>)
    ensures
        entry_name_problem(n) is None <==> (n.len() > 0 && n[0] != '/' && forall|i: int|
            0 <= i < n.len() - 1 ==> !(#[trigger] n[i] == '.' && n[i + 1] == '.')),
        n.len() == 0 ==> entry_name_problem(n) == Some("artifact entry name must not be empty"@),
{
    let no_pair = forall|i: int| 0 <= i < n.len() - 1 ==> !(#[trigger] n[i] == '.' && n[i + 1] == '.');
    if no_pair {
        assert forall|i: int| !#[trigger] dot_pair_at(n, i) by {
            if dot_pair_at(n, i) {
                assert(n[i] == '.');
            }
        }
        assert(!has_dot_dot(n));
    }
    if !no_pair {
        let i = choose|i: int| 0 <= i < n.len() - 1 && #[trigger] n[i] == '.' && n[i + 1] == '.';
        assert(dot_pair_at(n, i));
    }
}

/// Checks an entry name, giving the error it is refused with, if any.
pub fn check_entry_name(name: &str) -> (r: Option<InputError>)
    ensures
        match entry_name_problem(name@) {
            Some(m) => r matches Some(e) && e.kind == InputErrorKind::Value && e.message@ == m,
            None => r is None,
        },
        r is None <==> valid_entry_name(name@),
{
    let v = chars_of(name);
    if v.len() == 0 {
        return Some(InputError::new(InputErrorKind::Value, "artifact entry name must not be empty"));
    }
    let mut found = v[0] == '/';
    let mut i: usize = 0;
    while !found && i < v.len() - 1
        invariant
            v@ == name@,
            v@.len() > 0,
            found ==> (v@[0] == '/' || has_dot_dot(v@)),
            !found ==> v@[0] != '/' && forall|k: int| 0 <= k < i ==> !#[trigger] dot_pair_at(v@, k),
            i < v@.len(),
        decreases v@.len() - i + (if found { 0int } else { 1int }),
    {
        if v[i] == '.' && v[i + 1] == '.' {
            assert(dot_pair_at(v@, i as int));
            found = true;
        } else {
            i = i + 1;
        }
    }
    if found {
        Some(
            InputError::new(
                InputErrorKind::Value,
                "artifact entry name must be a relative path without '..' components",
            ),
        )
    } else {
        assert(!has_dot_dot(v@)) by {
            if has_dot_dot(v@) {
                let k = choose|k: int| dot_pair_at(v@, k);
                assert(k < i);
            }
        }
        None
    }
}

/// A wandb artifact: a name, a type, an optional description, and entries
/// whose names are all valid.
pub struct Artifact {
    name: String,
    artifact_type: String,
    description: Option<String>,
    entries: Vec<ArtifactEntry>,
}

/// The content of an [`Artifact`] or of an [`ArtifactSnapshot`].
pub struct ArtifactView {
    pub name: Seq<char>,
    pub artifact_type: Seq<char>,
    pub description: Option<Seq<char>>,
    pub entries: Seq<ArtifactEntryView>,
}

impl View for Artifact {
    type V = ArtifactView;

    closed spec fn view(&self) -> ArtifactView {
        ArtifactView {
            name: self.name@,
            artifact_type: self.artifact_type@,
            description: opt_view(self.description),
            entries: entries_view(self.entries@),
        }
    }
}

/// Whether an artifact's content is well formed: a non-empty name and type,
/// and only valid entry names.
pub open spec fn artifact_well_formed(a: ArtifactView) -> bool {
    a.name.len() > 0 && a.artifact_type.len() > 0 && forall|i: int|
        0 <= i < a.entries.len() ==> valid_entry_name(#[trigger] a.entries[i].name)
}

/// The name a file entry gets when none is given (`Path::file_name`,
/// when it is valid Unicode).
pub uninterp spec fn path_file_name(path: Seq<char>) -> Option<Seq<char>>;

/// Calls `Path::file_name` on `path` and keeps the result when it is valid
/// Unicode; the result is the name `path_file_name` gives for `path`.
#[verifier::external_body]
fn file_name_of(path: &str) -> (r: Option<String>)
    ensures
        opt_view(r) == path_file_name(path@),
{
    std::path::Path::new(path).file_name().and_then(|n| n.to_str()).map(|n| n.to_string())
}

/// The snapshot of an artifact taken when it is logged.
pub struct ArtifactSnapshot {
    pub name: String,
    pub artifact_type: String,
    pub description: Option<String>,
    pub entries: Vec<ArtifactEntry>,
}

impl View for ArtifactSnapshot {
    type V = ArtifactView;

    open spec fn view(&self) -> ArtifactView {
        ArtifactView {
            name: self.name@,
            artifact_type: self.artifact_type@,
            description: opt_view(self.description),
            entries: entries_view(self.entries@),
        }
    }
}

/// A copy of an optional string.
pub fn duplicate_opt(s: &Option<String>) -> (r: Option<String>)
    ensures
        opt_view(r) == opt_view(*s),
{
    match s {
        Some(x) => Some(x.clone()),
        None => None,
    }
}

impl Artifact {
    #[verifier::type_invariant]
    closed spec fn well_formed(self) -> bool {
        artifact_well_formed(self@)
    }

    /// A new, empty artifact; the name and the type must not be empty.
    pub fn new(name: String, artifact_type: String, description: Option<String>) -> (r: Result<
        Artifact,
        InputError,
    >)
        ensures
            name@.len() == 0 ==> fails_with(r, InputErrorKind::Value, "Artifact name must not be empty"@),
            name@.len() > 0 && artifact_type@.len() == 0 ==> fails_with(
                r,
                InputErrorKind::Value,
                "Artifact type must not be empty"@,
            ),
            name@.len() > 0 && artifact_type@.len() > 0 ==> (r matches Ok(a) && a@ == (ArtifactView {
                name: name@,
                artifact_type: artifact_type@,
                description: opt_view(description),
                entries: Seq::empty(),
            })),
    {
        if name.as_str().unicode_len() == 0 {
            return Err(InputError::new(InputErrorKind::Value, "Artifact name must not be empty"));
        }
        if artifact_type.as_str().unicode_len() == 0 {
            return Err(InputError::new(InputErrorKind::Value, "Artifact type must not be empty"));
        }
        let a = Artifact { name, artifact_type, description, entries: Vec::new() };
        assert(a@.entries =~= Seq::<ArtifactEntryView>::empty());
        Ok(a)
    }

    /// The entries added so far; every artifact is well formed.
    pub fn entries(&self) -> (r: &Vec<ArtifactEntry>)
        ensures
            entries_view(r@) == self@.entries,
            artifact_well_formed(self@),
    {
        proof {
            use_type_invariant(self);
        }
        &self.entries
    }

    /// Adds an entry under `name`, refusing an invalid name (the artifact is
    /// then unchanged).
    pub fn add_entry(&mut self, name: String, source: ArtifactEntrySource) -> (r: Result<
        (),
        InputError,
    >)
        ensures
            match entry_name_problem(name@) {
                Some(m) => fails_with(r, InputErrorKind::Value, m) && final(self)@ == old(self)@,
                None => r is Ok && final(self)@ == (ArtifactView {
                    entries: old(self)@.entries.push(
                        ArtifactEntryView { name: name@, source: source@ },
                    ),
                    ..old(self)@
                }),
            },
    {
        proof {
            use_type_invariant(&*self);
        }
        match check_entry_name(name.as_str()) {
            Some(e) => Err(e),
            None => {
                let ghost before = self@;
                let entry = ArtifactEntry { name, source };
                let mut entries: Vec<ArtifactEntry> = Vec::new();
                std::mem::swap(&mut entries, &mut self.entries);
                assert(entries_view(entries@) == before.entries);
                let ghost prior = entries@;
                entries.push(entry);
                assert(entries_view(entries@) =~= before.entries.push(entry@)) by {
                    assert forall|k: int| 0 <= k < prior.len() implies #[trigger] entries@[k] == prior[k] by {}
                }
                assert forall|k: int| 0 <= k < entries_view(entries@).len() implies valid_entry_name(
                    #[trigger] entries_view(entries@)[k].name,
                ) by {
                    if k < prior.len() {
                        assert(entries_view(entries@)[k] == before.entries[k]);
                    }
                }
                self.entries = entries;
                assert(self@.entries =~= before.entries.push(entry@));
                Ok(())
            },
        }
    }

    /// Adds the file at `path` under `name`, or under the file's own name
    /// when `name` is `None`. `path_is_file` tells whether `path` names an
    /// existing regular file; when it does not, the file is refused.
    pub fn add_file(&mut self, path: String, name: Option<String>, path_is_file: bool) -> (r:
        Result<(), InputError>)
        ensures
            !path_is_file ==> fails_with(
                r,
                InputErrorKind::FileNotFound,
                "artifact file does not exist: "@ + path@,
            ) && final(self)@ == old(self)@,
            path_is_file && name is None && path_file_name(path@) is None ==> fails_with(
                r,
                InputErrorKind::Value,
                "artifact file path has no filename"@,
            ) && final(self)@ == old(self)@,
            path_is_file && (name is Some || path_file_name(path@) is Some) ==> {
                let n = match name {
                    Some(n) => n@,
                    None => path_file_name(path@)->0,
                };
                match entry_name_problem(n) {
                    Some(m) => fails_with(r, InputErrorKind::Value, m) && final(self)@ == old(self)@,
                    None => r is Ok && final(self)@ == (ArtifactView {
                        entries: old(self)@.entries.push(
                            ArtifactEntryView { name: n, source: EntrySourceView::File(path@) },
                        ),
                        ..old(self)@
                    }),
                }
            },
    {
        if !path_is_file {
            let mut m = String::new();
            m.append("artifact file does not exist: ");
            m.append(path.as_str());
            return Err(InputError { kind: InputErrorKind::FileNotFound, message: m });
        }
        let entry_name = match name {
            Some(n) => n,
            None => match file_name_of(path.as_str()) {
                Some(n) => n,
                None => {
                    return Err(
                        InputError::new(InputErrorKind::Value, "artifact file path has no filename"),
                    );
                },
            },
        };
        self.add_entry(entry_name, ArtifactEntrySource::File(path))
    }

    /// Adds in-memory bytes under `name`.
    pub fn add_bytes(&mut self, data: Vec<u8>, name: String) -> (r: Result<(), InputError>)
        ensures
            match entry_name_problem(name@) {
                Some(m) => fails_with(r, InputErrorKind::Value, m) && final(self)@ == old(self)@,
                None => r is Ok && final(self)@ == (ArtifactView {
                    entries: old(self)@.entries.push(
                        ArtifactEntryView { name: name@, source: EntrySourceView::Bytes(data@) },
                    ),
                    ..old(self)@
                }),
            },
    {
        self.add_entry(name, ArtifactEntrySource::Bytes(data))
    }

    /// The snapshot logged for this artifact; an artifact without entries
    /// cannot be logged.
    pub fn snapshot(&self) -> (r: Result<ArtifactSnapshot, InputError>)
        ensures
            self@.entries.len() == 0 ==> fails_with(
                r,
                InputErrorKind::Value,
                "cannot log an Artifact with no files; call add_file or add_bytes first"@,
            ),
            self@.entries.len() > 0 ==> (r matches Ok(s) && s@ == self@),
    {
        if self.entries.len() == 0 {
            return Err(
                InputError::new(
                    InputErrorKind::Value,
                    "cannot log an Artifact with no files; call add_file or add_bytes first",
                ),
            );
        }
        Ok(
            ArtifactSnapshot {
                name: self.name.clone(),
                artifact_type: self.artifact_type.clone(),
                description: duplicate_opt(&self.description),
                entries: duplicate_entries(&self.entries),
            },
        )
    }
}

} // verus!
