//! Values logged to wandb and the rows of metrics that hold them.

use vstd::prelude::*;

use crate::text::str_equal;

verus! {

broadcast use vstd::string::group_string_axioms;

/// A single JSON-serializable value that can be logged to wandb.
pub enum DataValue {
    Bool(bool),
    Int(u64),
    SignedInt(i64),
    /// A floating-point number, held as the bit pattern of its IEEE 754
    /// binary64 encoding (`f64::to_bits`).
    Float(u64),
    String(String),
    List(Vec<DataValue>),
    Dict(DataMap),
}

/// The content of a [`DataValue`].
pub enum DataValueView {
    Bool(bool),
    Int(u64),
    SignedInt(i64),
    Float(u64),
    Str(Seq<char>),
    List(Seq<DataValueView>),
    Dict(Map<Seq<char>, DataValueView>),
}

/// A map from strings to values, each key present once.
pub struct DataMap {
    entries: Vec<(String, DataValue)>,
}

/// The map given by a list of key/value pairs whose keys are distinct.
pub open spec fn pairs_map(s: Seq<(Seq<char>, DataValueView)>) -> Map<Seq<char>, DataValueView> {
    Map::new(
        |k: Seq<char>| exists|i: int| 0 <= i < s.len() && s[i].0 == k,
        |k: Seq<char>| s[choose|i: int| 0 <= i < s.len() && s[i].0 == k].1,
    )
}

/// The keys of a list of pairs are distinct.
pub open spec fn distinct_keys(s: Seq<(Seq<char>, DataValueView)>) -> bool {
    forall|i: int, j: int| 0 <= i < j < s.len() ==> s[i].0 != s[j].0
}

impl DataValue {
    /// The content of the value.
    pub open spec fn content(self) -> DataValueView
        decreases self,
    {
        match self {
            DataValue::Bool(b) => DataValueView::Bool(b),
            DataValue::Int(i) => DataValueView::Int(i),
            DataValue::SignedInt(i) => DataValueView::SignedInt(i),
            DataValue::Float(f) => DataValueView::Float(f),
            DataValue::String(s) => DataValueView::Str(s@),
            DataValue::List(v) => DataValueView::List(
                Seq::new(
                    v@.len(),
                    |i: int|
                        if 0 <= i < v@.len() {
                            v@[i].content()
                        } else {
                            DataValueView::Bool(false)
                        },
                ),
            ),
            DataValue::Dict(m) => DataValueView::Dict(pairs_map(m.pairs())),
        }
    }
}

impl DataMap {
    /// The key/value pairs of the map, in their stored order.
    pub closed spec fn pairs(self) -> Seq<(Seq<char>, DataValueView)>
        decreases self,
    {
        Seq::new(
            self.entries@.len(),
            |i: int|
                if 0 <= i < self.entries@.len() {
                    (self.entries@[i].0@, self.entries@[i].1.content())
                } else {
                    (Seq::empty(), DataValueView::Bool(false))
                },
        )
    }
}

impl View for DataValue {
    type V = DataValueView;

    open spec fn view(&self) -> DataValueView {
        self.content()
    }
}

impl View for DataMap {
    type V = Map<Seq<char>, DataValueView>;

    open spec fn view(&self) -> Map<Seq<char>, DataValueView> {
        pairs_map(self.pairs())
    }
}

/// Replacing the value of a present key changes only that key.
proof fn lemma_pairs_map_update(s: Seq<(Seq<char>, DataValueView)>, i: int, v: DataValueView)
    requires
        distinct_keys(s),
        0 <= i < s.len(),
    ensures
        distinct_keys(s.update(i, (s[i].0, v))),
        pairs_map(s.update(i, (s[i].0, v))) == pairs_map(s).insert(s[i].0, v),
{
    let t = s.update(i, (s[i].0, v));
    assert forall|a: int, b: int| 0 <= a < b < t.len() implies t[a].0 != t[b].0 by {
        assert(s[a].0 != s[b].0);
    }
    let m1 = pairs_map(t);
    let m2 = pairs_map(s).insert(s[i].0, v);
    assert forall|k: Seq<char>| m1.contains_key(k) <==> m2.contains_key(k) by {
        if m2.contains_key(k) && k != s[i].0 {
            let j = choose|j: int| 0 <= j < s.len() && s[j].0 == k;
            assert(t[j].0 == k);
        }
        if m2.contains_key(k) && k == s[i].0 {
            assert(t[i].0 == k);
        }
        if m1.contains_key(k) {
            let j = choose|j: int| 0 <= j < t.len() && t[j].0 == k;
            assert(s[j].0 == k);
        }
    }
    assert forall|k: Seq<char>| #[trigger] m1.contains_key(k) implies m1[k] == m2[k] by {
        let j = choose|j: int| 0 <= j < t.len() && t[j].0 == k;
        assert(t[j].0 == k);
        if k == s[i].0 {
            assert(j == i);
        } else {
            let j2 = choose|j2: int| 0 <= j2 < s.len() && s[j2].0 == k;
            assert(s[j].0 == k);
            assert(j2 == j);
        }
    }
    assert(m1 =~= m2);
}

/// Adding a pair with a new key adds that key.
proof fn lemma_pairs_map_push(s: Seq<(Seq<char>, DataValueView)>, k0: Seq<char>, v: DataValueView)
    requires
        distinct_keys(s),
        !pairs_map(s).contains_key(k0),
    ensures
        distinct_keys(s.push((k0, v))),
        pairs_map(s.push((k0, v))) == pairs_map(s).insert(k0, v),
{
    let t = s.push((k0, v));
    assert forall|a: int, b: int| 0 <= a < b < t.len() implies t[a].0 != t[b].0 by {
        if b == s.len() {
            if s[a].0 == k0 {
                assert(pairs_map(s).contains_key(k0));
            }
        } else {
            assert(s[a].0 != s[b].0);
        }
    }
    let m1 = pairs_map(t);
    let m2 = pairs_map(s).insert(k0, v);
    assert forall|k: Seq<char>| m1.contains_key(k) <==> m2.contains_key(k) by {
        if m2.contains_key(k) && k != k0 {
            let j = choose|j: int| 0 <= j < s.len() && s[j].0 == k;
            assert(t[j].0 == k);
        }
        if m2.contains_key(k) && k == k0 {
            assert(t[s.len() as int].0 == k);
        }
        if m1.contains_key(k) && k != k0 {
            let j = choose|j: int| 0 <= j < t.len() && t[j].0 == k;
            assert(s[j].0 == k);
        }
    }
    assert forall|k: Seq<char>| #[trigger] m1.contains_key(k) implies m1[k] == m2[k] by {
        let j = choose|j: int| 0 <= j < t.len() && t[j].0 == k;
        assert(t[j].0 == k);
        if k == k0 {
            assert(t[s.len() as int].0 == k0);
            assert(j == s.len());
        } else {
            let j2 = choose|j2: int| 0 <= j2 < s.len() && s[j2].0 == k;
            assert(s[j].0 == k);
            assert(j2 == j);
        }
    }
    assert(m1 =~= m2);
}

impl DataMap {
    #[verifier::type_invariant]
    closed spec fn keys_distinct(self) -> bool {
        distinct_keys(self.pairs())
    }

    /// An empty map.
    pub fn new() -> (r: DataMap)
        ensures
            r@ == Map::<Seq<char>, DataValueView>::empty(),
    {
        let r = DataMap { entries: Vec::new() };
        assert(r@ =~= Map::<Seq<char>, DataValueView>::empty());
        r
    }

    /// The position of `key` among the stored pairs, if present.
    fn position(&self, key: &str) -> (r: Option<usize>)
        ensures
            match r {
                Some(i) => i < self.pairs().len() && self.pairs()[i as int].0 == key@,
                None => !self@.contains_key(key@),
            },
    {
        let ghost s = self.pairs();
        let mut i: usize = 0;
        while i < self.entries.len()
            invariant
                i <= self.entries@.len(),
                s == self.pairs(),
                s.len() == self.entries@.len(),
                forall|j: int| 0 <= j < i ==> s[j].0 != key@,
            decreases self.entries@.len() - i,
        {
            assert(s[i as int].0 == self.entries@[i as int].0@);
            if str_equal(self.entries[i].0.as_str(), key) {
                return Some(i);
            }
            i = i + 1;
        }
        None
    }

    /// The value stored under `key`, if any.
    pub fn get(&self, key: &str) -> (r: Option<&DataValue>)
        ensures
            match r {
                Some(v) => self@.contains_key(key@) && self@[key@] == v@,
                None => !self@.contains_key(key@),
            },
    {
        proof {
            use_type_invariant(self);
        }
        match self.position(key) {
            Some(i) => {
                proof {
                    let s = self.pairs();
                    assert(s[i as int].1 == self.entries@[i as int].1@);
                    let j = choose|j: int| 0 <= j < s.len() && s[j].0 == key@;
                    assert(j == i as int);
                }
                Some(&self.entries[i].1)
            },
            None => None,
        }
    }

    /// Stores `value` under `key`, replacing any value stored there.
    pub fn insert(&mut self, key: String, value: DataValue)
        ensures
            final(self)@ == old(self)@.insert(key@, value@),
    {
        proof {
            use_type_invariant(&*self);
        }
        let ghost s = self.pairs();
        let pos = self.position(key.as_str());
        let mut entries: Vec<(String, DataValue)> = Vec::new();
        std::mem::swap(&mut entries, &mut self.entries);
        let ghost prior = entries@;
        let ghost kv = key@;
        let ghost vv = value@;
        match pos {
            Some(i) => {
                entries.set(i, (key, value));
                proof {
                    lemma_pairs_map_update(s, i as int, vv);
                    let t = DataMap { entries }.pairs();
                    assert(t =~= s.update(i as int, (s[i as int].0, vv)));
                }
            },
            None => {
                entries.push((key, value));
                proof {
                    lemma_pairs_map_push(s, kv, vv);
                    let t = DataMap { entries }.pairs();
                    assert(t =~= s.push((kv, vv)));
                }
            },
        }
        self.entries = entries;
    }

    /// Stores `value` under `key` only if no value is stored there yet.
    pub fn insert_default(&mut self, key: String, value: DataValue)
        ensures
            old(self)@.contains_key(key@) ==> final(self)@ == old(self)@,
            !old(self)@.contains_key(key@) ==> final(self)@ == old(self)@.insert(key@, value@),
    {
        proof {
            use_type_invariant(&*self);
        }
        match self.position(key.as_str()) {
            Some(i) => {
                let ghost s = self.pairs();
                assert(self@.contains_key(key@)) by {
                    assert(s[i as int].0 == key@);
                }
            },
            None => {
                self.insert(key, value);
            },
        }
    }

    /// The stored pairs, for serializing the map; their keys are distinct
    /// and they hold exactly the map's content.
    pub fn entries(&self) -> (r: &Vec<(String, DataValue)>)
        ensures
            r@.len() == self.pairs().len(),
            forall|i: int|
                0 <= i < r@.len() ==> self.pairs()[i] == (#[trigger] r@[i].0@, r@[i].1@),
            distinct_keys(self.pairs()),
    {
        proof {
            use_type_invariant(self);
        }
        &self.entries
    }

    /// A copy of the map.
    pub fn duplicate(&self) -> (r: DataMap)
        ensures
            r@ == self@,
        decreases self,
    {
        proof {
            use_type_invariant(self);
        }
        let ghost s = self.pairs();
        let mut out: Vec<(String, DataValue)> = Vec::new();
        let mut i: usize = 0;
        while i < self.entries.len()
            invariant
                i <= self.entries@.len(),
                s == self.pairs(),
                distinct_keys(s),
                out@.len() == i,
                forall|k: int|
                    0 <= k < i ==> (#[trigger] out@[k]).0@ == self.entries@[k].0@ && out@[k].1@
                        == self.entries@[k].1@,
            decreases self.entries@.len() - i,
        {
            assert(decreases_to!(self.entries => self.entries@));
            assert(decreases_to!(self.entries@ => self.entries@[i as int]));
            assert(decreases_to!(self.entries@[i as int] => self.entries@[i as int].1));
            assert(decreases_to!(*self => self.entries@[i as int].1));
            let v = self.entries[i].1.duplicate();
            let k = self.entries[i].0.clone();
            out.push((k, v));
            i = i + 1;
        }
        assert((DataMap { entries: out }).pairs() =~= s);
        DataMap { entries: out }
    }
}

impl DataValue {
    /// A copy of the value.
    #[verifier::loop_isolation(false)]
    pub fn duplicate(&self) -> (r: DataValue)
        ensures
            r@ == self@,
        decreases self,
    {
        match self {
            DataValue::Bool(b) => DataValue::Bool(*b),
            DataValue::Int(i) => DataValue::Int(*i),
            DataValue::SignedInt(i) => DataValue::SignedInt(*i),
            DataValue::Float(f) => DataValue::Float(*f),
            DataValue::String(s) => DataValue::String(s.clone()),
            DataValue::List(v) => {
                let mut out: Vec<DataValue> = Vec::new();
                let mut i: usize = 0;
                while i < v.len()
                    invariant
                        i <= v@.len(),
                        out@.len() == i,
                        forall|k: int| 0 <= k < i ==> (#[trigger] out@[k])@ == v@[k]@,
                    decreases v@.len() - i,
                {
                    let c = v[i].duplicate();
                    out.push(c);
                    i = i + 1;
                }
                let r = DataValue::List(out);
                assert(r@->List_0 =~= self@->List_0);
                r
            },
            DataValue::Dict(m) => DataValue::Dict(m.duplicate()),
        }
    }
}

/// A row of metrics to be logged to wandb: metric names and their values.
pub struct LogData {
    data: DataMap,
}

impl View for LogData {
    type V = Map<Seq<char>, DataValueView>;

    closed spec fn view(&self) -> Map<Seq<char>, DataValueView> {
        self.data@
    }
}

impl LogData {
    /// An empty row.
    pub fn new() -> (r: LogData)
        ensures
            r@ == Map::<Seq<char>, DataValueView>::empty(),
    {
        LogData { data: DataMap::new() }
    }

    /// Sets metric `key` to `value`, replacing any earlier value.
    pub fn insert(&mut self, key: String, value: DataValue)
        ensures
            final(self)@ == old(self)@.insert(key@, value@),
    {
        self.data.insert(key, value);
    }

    /// Sets metric `key` to `value` only if the row has no value for it yet,
    /// so that values the user gave take precedence.
    pub fn insert_default(&mut self, key: String, value: DataValue)
        ensures
            old(self)@.contains_key(key@) ==> final(self)@ == old(self)@,
            !old(self)@.contains_key(key@) ==> final(self)@ == old(self)@.insert(key@, value@),
    {
        self.data.insert_default(key, value);
    }

    /// The value of metric `key`, if the row has one.
    pub fn get(&self, key: &str) -> (r: Option<&DataValue>)
        ensures
            match r {
                Some(v) => self@.contains_key(key@) && self@[key@] == v@,
                None => !self@.contains_key(key@),
            },
    {
        self.data.get(key)
    }

    /// The metrics of the row, as a map.
    pub fn data(&self) -> (r: &DataMap)
        ensures
            r@ == self@,
    {
        &self.data
    }
}

/// What a read of a row gives back after a write: the value written, and
/// the earlier value of every other metric.
pub proof fn law_read_after_insert(
    row: Map<Seq<char>, DataValueView>,
    key: Seq<char>,
    value: DataValueView,
    other: Seq<char>,
)
    ensures
        row.insert(key, value).contains_key(key),
        row.insert(key, value)[key] == value,
        other != key ==> (row.insert(key, value).contains_key(other) == row.contains_key(other)
            && row.insert(key, value)[other] == row[other]),
{
}

/// A default never replaces a value: after `insert(key, value)` then
/// `insert_default(key, fallback)`, the row still holds `value`.
pub proof fn law_default_after_insert(
    row: Map<Seq<char>, DataValueView>,
    key: Seq<char>,
    value: DataValueView,
    fallback: DataValueView,
)
    ensures
        ({
            let after = row.insert(key, value);
            let defaulted = if after.contains_key(key) {
                after
            } else {
                after.insert(key, fallback)
            };
            defaulted[key] == value
        }),
{
}

} // verus!
