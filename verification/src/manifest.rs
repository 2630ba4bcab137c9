//! The artifact manifest: the JSON document, listing each uploaded file by
//! name, that is uploaded and committed with an artifact.
//!
//! The manifest's `contents` object has one member per distinct file name,
//! in increasing order of names (code point by code point, which is the
//! byte order of their UTF-8 encodings); when two files share a name, the
//! later one is listed.

use vstd::prelude::*;

use crate::error::ApiError;
use crate::text::{chars_of, decimal, hex_digit, push_decimal};

verus! {

broadcast use vstd::string::group_string_axioms;

/// A file of an artifact, read and digested, ready to be uploaded.
pub struct ArtifactUploadFile {
    pub name: String,
    pub digest: String,
    pub bytes: Vec<u8>,
}

/// A file of an artifact once uploaded: its name, digest, size, and where
/// the backend stored it.
pub struct UploadedArtifactFile {
    pub name: String,
    pub digest: String,
    pub size: u64,
    pub storage_path: String,
}

// ---------------------------------------------------------------------------
// The order of names
// ---------------------------------------------------------------------------

/// `a` comes strictly before `b`, comparing code point by code point, a
/// proper prefix first.
pub open spec fn lex_lt(a: Seq<char>, b: Seq<char>) -> bool
    decreases a.len(),
{
    if a.len() == 0 {
        b.len() > 0
    } else if b.len() == 0 {
        false
    } else if (a[0] as u32) < (b[0] as u32) {
        true
    } else if a[0] == b[0] {
        lex_lt(a.drop_first(), b.drop_first())
    } else {
        false
    }
}

/// No name comes before itself.
pub proof fn lemma_lex_irreflexive(a: Seq<char>)
    ensures
        !lex_lt(a, a),
    decreases a.len(),
{
    if a.len() > 0 {
        lemma_lex_irreflexive(a.drop_first());
    }
}

/// The order is transitive.
pub proof fn lemma_lex_transitive(a: Seq<char>, b: Seq<char>, c: Seq<char>)
    requires
        lex_lt(a, b),
        lex_lt(b, c),
    ensures
        lex_lt(a, c),
    decreases a.len(),
{
    if a.len() > 0 && b.len() > 0 && c.len() > 0 && a[0] == b[0] && b[0] == c[0] {
        lemma_lex_transitive(a.drop_first(), b.drop_first(), c.drop_first());
    }
}

/// Of two different names, one comes before the other.
pub proof fn lemma_lex_total(a: Seq<char>, b: Seq<char>)
    requires
        a != b,
    ensures
        lex_lt(a, b) || lex_lt(b, a),
    decreases a.len(),
{
    if a.len() > 0 && b.len() > 0 && a[0] == b[0] {
        if a.drop_first() == b.drop_first() {
            assert(a =~= seq![a[0]] + a.drop_first());
            assert(b =~= seq![b[0]] + b.drop_first());
        }
        lemma_lex_total(a.drop_first(), b.drop_first());
    } else if a.len() > 0 && b.len() > 0 {
        vstd::utf8::char_u32_cast(a[0], a[0] as u32);
        vstd::utf8::char_u32_cast(b[0], b[0] as u32);
        assert((a[0] as u32) != (b[0] as u32));
    } else if a.len() == 0 && b.len() == 0 {
        assert(a =~= b);
    }
}

/// No two names come each before the other.
pub proof fn lemma_lex_asymmetric(a: Seq<char>, b: Seq<char>)
    requires
        lex_lt(a, b),
    ensures
        !lex_lt(b, a),
{
    if lex_lt(b, a) {
        lemma_lex_transitive(a, b, a);
        lemma_lex_irreflexive(a);
    }
}

/// Whether `a` comes strictly before `b`.
pub fn lex_less(a: &Vec<char>, b: &Vec<char>) -> (r: bool)
    ensures
        r == lex_lt(a@, b@),
{
    let mut i: usize = 0;
    assert(a@.skip(0) =~= a@ && b@.skip(0) =~= b@);
    while i < a.len() && i < b.len() && a[i] == b[i]
        invariant
            i <= a@.len(),
            i <= b@.len(),
            lex_lt(a@, b@) == lex_lt(a@.skip(i as int), b@.skip(i as int)),
        decreases a@.len() - i,
    {
        proof {
            let x = a@.skip(i as int);
            let y = b@.skip(i as int);
            assert(x.drop_first() =~= a@.skip(i + 1));
            assert(y.drop_first() =~= b@.skip(i + 1));
        }
        i = i + 1;
    }
    let ghost x = a@.skip(i as int);
    let ghost y = b@.skip(i as int);
    if i == a.len() {
        i < b.len()
    } else if i == b.len() {
        false
    } else {
        assert(x[0] == a@[i as int] && y[0] == b@[i as int]);
        let (ca, cb) = (a[i], b[i]);
        (ca as u32) < (cb as u32)
    }
}

// ---------------------------------------------------------------------------
// Which files are listed, in which order
// ---------------------------------------------------------------------------

/// The names of the files.
pub open spec fn names_of(files: Seq<UploadedArtifactFile>) -> Seq<Seq<char>> {
    files.map_values(|f: UploadedArtifactFile| f.name@)
}

/// `i` is the position of the last file named `names[i]`.
pub open spec fn is_last_of(names: Seq<Seq<char>>, i: int) -> bool {
    0 <= i < names.len() && forall|j: int| i < j < names.len() ==> names[j] != names[i]
}

/// `o` lists, for each distinct name, the position of the last file with
/// that name, in strictly increasing order of names.
pub open spec fn is_manifest_order(names: Seq<Seq<char>>, o: Seq<usize>) -> bool {
    &&& forall|k: int| 0 <= k < o.len() ==> is_last_of(names, #[trigger] o[k] as int)
    &&& forall|k: int, l: int|
        0 <= k < l < o.len() ==> lex_lt(#[trigger] names[o[k] as int], #[trigger] names[o[l] as int])
    &&& forall|i: int| 0 <= i < names.len() ==> is_listed(names, o, #[trigger] names[i])
}

/// Some position listed by `o` holds the name `x`.
pub open spec fn is_listed(names: Seq<Seq<char>>, o: Seq<usize>, x: Seq<char>) -> bool {
    exists|k: int| 0 <= k < o.len() && names[o[k] as int] == x
}

/// The manifest order of the files.
pub open spec fn manifest_order_of(names: Seq<Seq<char>>) -> Seq<usize> {
    choose|o: Seq<usize>| is_manifest_order(names, o)
}

/// The names listed by an order.
pub open spec fn listed_names(names: Seq<Seq<char>>, o: Seq<usize>) -> Seq<Seq<char>> {
    o.map_values(|i: usize| names[i as int])
}

/// Two strictly increasing lists of names with the same members are equal.
proof fn lemma_sorted_same_members(s1: Seq<Seq<char>>, s2: Seq<Seq<char>>)
    requires
        forall|k: int, l: int| 0 <= k < l < s1.len() ==> lex_lt(#[trigger] s1[k], #[trigger] s1[l]),
        forall|k: int, l: int| 0 <= k < l < s2.len() ==> lex_lt(#[trigger] s2[k], #[trigger] s2[l]),
        forall|x: Seq<char>| s1.contains(x) <==> s2.contains(x),
    ensures
        s1 == s2,
    decreases s1.len(),
{
    if s1.len() == 0 {
        if s2.len() > 0 {
            assert(s2.contains(s2[0]));
        }
        assert(s1 =~= s2);
    } else {
        assert(s1.contains(s1[0]));
        let j = choose|j: int| 0 <= j < s2.len() && s2[j] == s1[0];
        assert(s2.contains(s2[0]));
        let i = choose|i: int| 0 <= i < s1.len() && s1[i] == s2[0];
        if j > 0 {
            assert(lex_lt(s2[0], s2[j]));
            if i > 0 {
                assert(lex_lt(s1[0], s1[i]));
                lemma_lex_asymmetric(s1[0], s2[0]);
            } else {
                lemma_lex_irreflexive(s2[0]);
            }
        }
        assert(s1[0] == s2[0]);
        let t1 = s1.drop_first();
        let t2 = s2.drop_first();
        assert forall|k: int, l: int| 0 <= k < l < t1.len() implies lex_lt(#[trigger] t1[k], #[trigger] t1[l]) by {
            assert(t1[k] == s1[k + 1] && t1[l] == s1[l + 1]);
        }
        assert forall|k: int, l: int| 0 <= k < l < t2.len() implies lex_lt(#[trigger] t2[k], #[trigger] t2[l]) by {
            assert(t2[k] == s2[k + 1] && t2[l] == s2[l + 1]);
        }
        assert forall|x: Seq<char>| t1.contains(x) <==> t2.contains(x) by {
            if t1.contains(x) {
                let a = choose|a: int| 0 <= a < t1.len() && t1[a] == x;
                assert(s1[a + 1] == x);
                assert(lex_lt(s1[0], x));
                assert(s2.contains(x));
                let b = choose|b: int| 0 <= b < s2.len() && s2[b] == x;
                if b == 0 {
                    lemma_lex_irreflexive(x);
                }
                assert(t2[b - 1] == x);
            }
            if t2.contains(x) {
                let a = choose|a: int| 0 <= a < t2.len() && t2[a] == x;
                assert(s2[a + 1] == x);
                assert(lex_lt(s2[0], x));
                assert(s1.contains(x));
                let b = choose|b: int| 0 <= b < s1.len() && s1[b] == x;
                if b == 0 {
                    lemma_lex_irreflexive(x);
                }
                assert(t1[b - 1] == x);
            }
        }
        lemma_sorted_same_members(t1, t2);
        assert(s1 =~= seq![s1[0]] + t1);
        assert(s2 =~= seq![s2[0]] + t2);
    }
}

/// The manifest order of a list of files is unique: the manifest is
/// determined by the files alone.
pub proof fn lemma_manifest_order_unique(names: Seq<Seq<char>>, o1: Seq<usize>, o2: Seq<usize>)
    requires
        is_manifest_order(names, o1),
        is_manifest_order(names, o2),
    ensures
        o1 == o2,
{
    let s1 = listed_names(names, o1);
    let s2 = listed_names(names, o2);
    assert forall|k: int, l: int| 0 <= k < l < s1.len() implies lex_lt(#[trigger] s1[k], #[trigger] s1[l]) by {
        assert(lex_lt(names[o1[k] as int], names[o1[l] as int]));
    }
    assert forall|k: int, l: int| 0 <= k < l < s2.len() implies lex_lt(#[trigger] s2[k], #[trigger] s2[l]) by {
        assert(lex_lt(names[o2[k] as int], names[o2[l] as int]));
    }
    assert forall|x: Seq<char>| s1.contains(x) <==> s2.contains(x) by {
        if s1.contains(x) {
            let a = choose|a: int| 0 <= a < s1.len() && s1[a] == x;
            assert(is_last_of(names, o1[a] as int));
            let i = o1[a] as int;
            assert(names[i] == x);
            assert(is_listed(names, o2, names[i]));
            let b = choose|b: int| 0 <= b < o2.len() && names[o2[b] as int] == names[i];
            assert(s2[b] == x);
        }
        if s2.contains(x) {
            let a = choose|a: int| 0 <= a < s2.len() && s2[a] == x;
            assert(is_last_of(names, o2[a] as int));
            let i = o2[a] as int;
            assert(names[i] == x);
            assert(is_listed(names, o1, names[i]));
            let b = choose|b: int| 0 <= b < o1.len() && names[o1[b] as int] == names[i];
            assert(s1[b] == x);
        }
    }
    lemma_sorted_same_members(s1, s2);
    assert(s1.len() == o1.len() && s2.len() == o2.len());
    assert(o1.len() == o2.len());
    assert forall|k: int| 0 <= k < o1.len() implies o1[k] == o2[k] by {
        assert(s1[k] == s2[k]);
        assert(is_last_of(names, o1[k] as int));
        assert(is_last_of(names, o2[k] as int));
        if (o1[k] as int) < (o2[k] as int) {
            assert(names[o2[k] as int] == names[o1[k] as int]);
        } else if (o2[k] as int) < (o1[k] as int) {
            assert(names[o1[k] as int] == names[o2[k] as int]);
        }
    }
    assert(o1 =~= o2);
}

/// Listing a name that is already listed, at the position of its new last
/// file, keeps the order a manifest order.
proof fn lemma_replace_step(
    pre: Seq<Seq<char>>,
    name: Seq<char>,
    old_order: Seq<usize>,
    order: Seq<usize>,
    p: int,
)
    requires
        is_manifest_order(pre, old_order),
        0 <= p < old_order.len(),
        pre[old_order[p] as int] == name,
        pre.len() < usize::MAX,
        order == old_order.update(p, pre.len() as usize),
    ensures
        is_manifest_order(pre.push(name), order),
{
    let next = pre.push(name);
    let i = pre.len() as int;
    assert forall|k: int| 0 <= k < order.len() implies is_last_of(next, #[trigger] order[k] as int) by {
        if k != p {
            assert(is_last_of(pre, old_order[k] as int));
            if k < p {
                assert(lex_lt(pre[old_order[k] as int], pre[old_order[p] as int]));
            } else {
                assert(lex_lt(pre[old_order[p] as int], pre[old_order[k] as int]));
            }
            lemma_lex_irreflexive(name);
            assert(next[i] != next[order[k] as int]);
        }
    }
    assert forall|k: int, l: int| 0 <= k < l < order.len() implies lex_lt(
        #[trigger] next[order[k] as int],
        #[trigger] next[order[l] as int],
    ) by {
        assert(lex_lt(pre[old_order[k] as int], pre[old_order[l] as int]));
    }
    assert forall|j: int| 0 <= j < next.len() implies is_listed(next, order, #[trigger] next[j]) by {
        if j < i {
            assert(is_listed(pre, old_order, pre[j]));
            let k = choose|k: int| 0 <= k < old_order.len() && pre[old_order[k] as int] == pre[j];
            if k == p {
                assert(next[order[p] as int] == next[j]);
            } else {
                assert(next[order[k] as int] == next[j]);
            }
        } else {
            assert(next[order[p] as int] == next[j]);
        }
    }
}

/// Inserting a name that is not listed, at the first position whose name
/// does not come before it, keeps the order a manifest order.
#[verifier::rlimit(40)]
proof fn lemma_insert_step(
    pre: Seq<Seq<char>>,
    name: Seq<char>,
    old_order: Seq<usize>,
    order: Seq<usize>,
    p: int,
)
    requires
        is_manifest_order(pre, old_order),
        0 <= p <= old_order.len(),
        forall|k: int| 0 <= k < p ==> lex_lt(#[trigger] pre[old_order[k] as int], name),
        p < old_order.len() ==> !lex_lt(pre[old_order[p] as int], name) && pre[old_order[p] as int] != name,
        pre.len() < usize::MAX,
        order == old_order.insert(p, pre.len() as usize),
    ensures
        is_manifest_order(pre.push(name), order),
{
    let next = pre.push(name);
    let i = pre.len() as int;
    if p < old_order.len() {
        lemma_lex_total(pre[old_order[p] as int], name);
    }
    // names listed after position p come after `name`
    assert forall|k: int| p <= k < old_order.len() implies lex_lt(name, #[trigger] pre[old_order[k] as int]) by {
        if k > p {
            assert(lex_lt(pre[old_order[p] as int], pre[old_order[k] as int]));
            lemma_lex_transitive(name, pre[old_order[p] as int], pre[old_order[k] as int]);
        }
    }
    // `name` is not listed, so no earlier file has it
    assert forall|j: int| 0 <= j < i implies pre[j] != name by {
        assert(is_listed(pre, old_order, pre[j]));
            let k = choose|k: int| 0 <= k < old_order.len() && pre[old_order[k] as int] == pre[j];
        lemma_lex_irreflexive(name);
        if k >= p {
            assert(lex_lt(name, pre[old_order[k] as int]));
        }
    }
    assert forall|k: int| 0 <= k < order.len() implies is_last_of(next, #[trigger] order[k] as int) by {
        if k < p {
            assert(order[k] == old_order[k]);
            assert(is_last_of(pre, old_order[k] as int));
        } else if k > p {
            assert(order[k] == old_order[k - 1]);
            assert(is_last_of(pre, old_order[k - 1] as int));
        }
    }
    assert forall|k: int, l: int| 0 <= k < l < order.len() implies lex_lt(
        #[trigger] next[order[k] as int],
        #[trigger] next[order[l] as int],
    ) by {
        if l < p {
            assert(lex_lt(pre[old_order[k] as int], pre[old_order[l] as int]));
        } else if l == p {
            assert(lex_lt(pre[old_order[k] as int], name));
        } else if k < p {
            assert(order[l] == old_order[l - 1]);
            assert(lex_lt(name, pre[old_order[l - 1] as int]));
            lemma_lex_transitive(pre[old_order[k] as int], name, pre[old_order[l - 1] as int]);
        } else if k == p {
            assert(order[l] == old_order[l - 1]);
            assert(lex_lt(name, pre[old_order[l - 1] as int]));
        } else {
            assert(order[k] == old_order[k - 1]);
            assert(order[l] == old_order[l - 1]);
            assert(lex_lt(pre[old_order[k - 1] as int], pre[old_order[l - 1] as int]));
        }
    }
    assert forall|j: int| 0 <= j < next.len() implies is_listed(next, order, #[trigger] next[j]) by {
        if j < i {
            assert(is_listed(pre, old_order, pre[j]));
            let k = choose|k: int| 0 <= k < old_order.len() && pre[old_order[k] as int] == pre[j];
            if k < p {
                assert(order[k] == old_order[k]);
                assert(next[order[k] as int] == next[j]);
            } else {
                assert(order[k + 1] == old_order[k]);
                assert(next[order[k + 1] as int] == next[j]);
            }
        } else {
            assert(next[order[p] as int] == next[j]);
        }
    }
}

/// The views of a list of character vectors.
pub open spec fn chars_views(v: Seq<Vec<char>>) -> Seq<Seq<char>> {
    v.map_values(|t: Vec<char>| t@)
}

/// The positions of the files the manifest lists, in the order it lists them.
pub fn manifest_order(files: &Vec<UploadedArtifactFile>) -> (r: Vec<usize>)
    ensures
        is_manifest_order(names_of(files@), r@),
        r@ == manifest_order_of(names_of(files@)),
{
    let ghost all = names_of(files@);
    let mut names: Vec<Vec<char>> = Vec::new();
    let mut order: Vec<usize> = Vec::new();
    let mut i: usize = 0;
    while i < files.len()
        invariant
            i <= files@.len(),
            all == names_of(files@),
            names@.len() == i,
            chars_views(names@) == all.take(i as int),
            is_manifest_order(all.take(i as int), order@),
        decreases files@.len() - i,
    {
        let ghost pre = all.take(i as int);
        let ghost next = all.take(i + 1);
        let name = chars_of(files[i].name.as_str());
        assert(name@ == all[i as int]);
        // find the first listed name that does not come before `name`
        let mut p: usize = 0;
        while p < order.len() && lex_less(&names[order[p]], &name)
            invariant
                p <= order@.len(),
                names@.len() == i,
                chars_views(names@) == pre,
                is_manifest_order(pre, order@),
                forall|k: int| 0 <= k < p ==> lex_lt(#[trigger] pre[order@[k] as int], name@),
            decreases order@.len() - p,
        {
            assert(is_last_of(pre, order@[p as int] as int));
            assert(chars_views(names@)[order@[p as int] as int] == names@[order@[p as int] as int]@);
            p = p + 1;
        }
        let ghost old_order = order@;
        let same = if p < order.len() {
            assert(is_last_of(pre, order@[p as int] as int));
            assert(chars_views(names@)[order@[p as int] as int] == names@[order@[p as int] as int]@);
            crate::text::chars_equal(&names[order[p]], &name)
        } else {
            false
        };
        assert forall|j: int| 0 <= j < i implies next[j] == pre[j] by {}
        assert(next[i as int] == name@);
        assert(next =~= pre.push(name@));
        if same {
            order.set(p, i);
            proof {
                lemma_replace_step(pre, name@, old_order, order@, p as int);
            }
        } else {
            order.insert(p, i);
            proof {
                lemma_insert_step(pre, name@, old_order, order@, p as int);
            }
        }
        names.push(name);
        assert(chars_views(names@) =~= next);
        i = i + 1;
    }
    assert(all.take(i as int) =~= all);
    proof {
        let c = manifest_order_of(all);
        assert(is_manifest_order(all, c));
        lemma_manifest_order_unique(all, c, order@);
    }
    order
}

// ---------------------------------------------------------------------------
// The manifest document
// ---------------------------------------------------------------------------

/// How `serde_json` writes one character inside a string literal: `"` and
/// `\` escaped with a backslash; backspace, tab, line feed, form feed and
/// carriage return as `\b`, `\t`, `\n`, `\f`, `\r`; the other control
/// characters below U+0020 as `\u00` and two lowercase hex digits; every
/// other character as itself.
pub open spec fn json_char(c: char) -> Seq<char> {
    if c == '"' {
        seq!['\\', '"']
    } else if c == '\\' {
        seq!['\\', '\\']
    } else if c == '\u{8}' {
        seq!['\\', 'b']
    } else if c == '\t' {
        seq!['\\', 't']
    } else if c == '\n' {
        seq!['\\', 'n']
    } else if c == '\u{c}' {
        seq!['\\', 'f']
    } else if c == '\r' {
        seq!['\\', 'r']
    } else if (c as u32) < 0x20 {
        seq!['\\', 'u', '0', '0', hex_digit((c as u32) as int / 16), hex_digit((c as u32) as int % 16)]
    } else {
        seq![c]
    }
}

/// The characters of `s`, each written as inside a JSON string literal.
pub open spec fn json_escaped(s: Seq<char>) -> Seq<char>
    decreases s.len(),
{
    if s.len() == 0 {
        Seq::empty()
    } else {
        json_escaped(s.drop_last()) + json_char(s.last())
    }
}

/// The JSON string literal `serde_json` writes for `s`.
pub open spec fn quoted(s: Seq<char>) -> Seq<char> {
    seq!['"'] + json_escaped(s) + seq!['"']
}

/// Calls `serde_json::to_string` on a string slice: it writes the literal
/// `quoted` describes (see `format_escaped_str` and its `ESCAPE` table in
/// serde_json's `ser.rs`), into a `Vec`, which never fails.
#[verifier::external_body]
fn json_quote(s: &str) -> (r: Result<String, String>)
    ensures
        match r {
            Ok(t) => t@ == quoted(s@),
            Err(_) => false,
        },
{
    serde_json::to_string(s).map_err(|e| e.to_string())
}

/// The member of `contents` that lists file `f`.
pub open spec fn entry_json(f: UploadedArtifactFile) -> Seq<char> {
    quoted(f.name@) + ":{\"digest\":"@ + quoted(f.digest@) + ",\"path\":"@ + quoted(f.storage_path@)
        + ",\"size\":"@ + decimal(f.size as nat) + "}"@
}

/// The members of `contents`, in the given order.
pub open spec fn entries_json(files: Seq<UploadedArtifactFile>, o: Seq<usize>) -> Seq<Seq<char>> {
    o.map_values(|i: usize| entry_json(files[i as int]))
}

/// The text that opens the manifest.
pub open spec fn manifest_head() -> Seq<char> {
    "{\"contents\":{"@
}

/// The text that closes the manifest.
pub open spec fn manifest_tail() -> Seq<char> {
    "},\"storagePolicy\":\"wandb-storage-policy-v1\",\"storagePolicyConfig\":{\"storageLayout\":\"V2\"},\"version\":1}"@
}

/// The compact JSON manifest listing the files at the positions `o`: the
/// document `{"contents": {...}, "storagePolicy": "wandb-storage-policy-v1",
/// "storagePolicyConfig": {"storageLayout": "V2"}, "version": 1}` with its
/// keys in order, as `serde_json` writes it.
pub open spec fn manifest_json(files: Seq<UploadedArtifactFile>, o: Seq<usize>) -> Seq<char> {
    manifest_head() + crate::error::joined(entries_json(files, o), ","@) + manifest_tail()
}

/// Appends the JSON literal of `s`.
fn push_quoted(out: &mut String, s: &str)
    ensures
        final(out)@ == old(out)@ + quoted(s@),
{
    match json_quote(s) {
        Ok(t) => out.append(t.as_str()),
        Err(_) => {},
    }
}

/// The manifest of the uploaded files: one member of `contents` per
/// distinct file name, in increasing order of names, each describing the
/// last file with that name. Every string has a JSON literal, so it always
/// succeeds.
pub fn build_manifest(files: &Vec<UploadedArtifactFile>) -> (r: Result<String, ApiError>)
    ensures
        r matches Ok(t) && t@ == manifest_json(files@, manifest_order_of(names_of(files@))),
{
    let order = manifest_order(files);
    let ghost es = entries_json(files@, order@);
    let mut out = String::new();
    out.append("{\"contents\":{");
    let mut k: usize = 0;
    while k < order.len()
        invariant
            k <= order@.len(),
            es == entries_json(files@, order@),
            is_manifest_order(names_of(files@), order@),
            order@ == manifest_order_of(names_of(files@)),
            out@ == manifest_head() + crate::error::joined(es.take(k as int), ","@),
        decreases order@.len() - k,
    {
        let ghost before = out@;
        let i = order[k];
        assert(is_last_of(names_of(files@), i as int));
        let f = &files[i];
        if k > 0 {
            out.append(",");
        }
        let ghost mid = out@;
        assert(*f == files@[order@[k as int] as int]);
        push_quoted(&mut out, f.name.as_str());
        out.append(":{\"digest\":");
        push_quoted(&mut out, f.digest.as_str());
        out.append(",\"path\":");
        push_quoted(&mut out, f.storage_path.as_str());
        out.append(",\"size\":");
        push_decimal(&mut out, f.size as u128);
        out.append("}");
        proof {
            assert(out@ =~= mid + entry_json(*f));
            assert(es[k as int] == entry_json(*f));
            assert(es.take(k + 1).drop_last() =~= es.take(k as int));
            assert(es.take(k + 1).last() == es[k as int]);
            if k > 0 {
                assert(out@ =~= manifest_head() + crate::error::joined(es.take(k + 1), ","@));
            } else {
                assert(es.take(1) =~= seq![es[0]]);
                assert(out@ =~= manifest_head() + crate::error::joined(es.take(k + 1), ","@));
            }
        }
        k = k + 1;
    }
    out.append("},\"storagePolicy\":\"wandb-storage-policy-v1\",\"storagePolicyConfig\":{\"storageLayout\":\"V2\"},\"version\":1}");
    assert(es.take(k as int) =~= es);
    Ok(out)
}

} // verus!
