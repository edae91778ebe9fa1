//! The values a log record's fields can hold, and an ordered association of
//! field names to values.
//!
//! A field map keeps its entries in first-insertion order; writing to a name
//! that is already present overwrites the value in place, so names stay
//! unique.

use vstd::prelude::*;

verus! {

/// The value of one recorded field.
///
/// Numeric values that the verifier does not model (for instance
/// floating-point numbers) are carried as an already-rendered decimal token
/// in `Num` and emitted verbatim into the JSON output.
#[derive(Debug, PartialEq)]
pub enum FieldValue {
    Bool(bool),
    I64(i64),
    U64(u64),
    Str(String),
    Num(String),
}

/// The mathematical value of a `FieldValue`.
pub ghost enum ValueView {
    Bool(bool),
    I64(int),
    U64(int),
    Str(Seq<char>),
    Num(Seq<char>),
}

impl View for FieldValue {
    type V = ValueView;

    open spec fn view(&self) -> ValueView {
        match self {
            FieldValue::Bool(b) => ValueView::Bool(*b),
            FieldValue::I64(i) => ValueView::I64(*i as int),
            FieldValue::U64(u) => ValueView::U64(*u as int),
            FieldValue::Str(s) => ValueView::Str(s@),
            FieldValue::Num(s) => ValueView::Num(s@),
        }
    }
}

impl Clone for FieldValue {
    fn clone(&self) -> (r: Self)
        ensures
            r@ == self@,
    {
        match self {
            FieldValue::Bool(b) => FieldValue::Bool(*b),
            FieldValue::I64(i) => FieldValue::I64(*i),
            FieldValue::U64(u) => FieldValue::U64(*u),
            FieldValue::Str(s) => FieldValue::Str(s.clone()),
            FieldValue::Num(s) => FieldValue::Num(s.clone()),
        }
    }
}

/// The mathematical value of a field map: name/value pairs in order.
pub type Entries = Seq<(Seq<char>, ValueView)>;

/// Whether some entry carries the name `k`.
pub open spec fn contains_key(es: Entries, k: Seq<char>) -> bool {
    exists|i: int| 0 <= i < es.len() && es[i].0 == k
}

/// The position of the first entry named `k`.
pub open spec fn key_index(es: Entries, k: Seq<char>) -> int
    decreases es.len(),
{
    if es.len() == 0 {
        0
    } else if es[0].0 == k {
        0
    } else {
        1 + key_index(es.drop_first(), k)
    }
}

/// The value recorded under `k`, if any.
pub open spec fn get_value(es: Entries, k: Seq<char>) -> Option<ValueView> {
    if contains_key(es, k) {
        Some(es[key_index(es, k)].1)
    } else {
        None
    }
}

/// The map after writing `v` under `k`: overwrite in place if `k` is
/// present, append otherwise.
pub open spec fn insert_entry(es: Entries, k: Seq<char>, v: ValueView) -> Entries {
    if contains_key(es, k) {
        es.update(key_index(es, k), (k, v))
    } else {
        es.push((k, v))
    }
}

/// The map after removing the entry named `k`, if present.
pub open spec fn remove_key(es: Entries, k: Seq<char>) -> Entries {
    if contains_key(es, k) {
        es.remove(key_index(es, k))
    } else {
        es
    }
}

/// The map after writing every entry of `other`, in order, into `es`.
pub open spec fn merge_entries(es: Entries, other: Entries) -> Entries
    decreases other.len(),
{
    if other.len() == 0 {
        es
    } else {
        merge_entries(insert_entry(es, other[0].0, other[0].1), other.drop_first())
    }
}

/// If `k` is present, `key_index` points at its first occurrence.
pub proof fn lemma_key_index(es: Entries, k: Seq<char>)
    requires
        contains_key(es, k),
    ensures
        0 <= key_index(es, k) < es.len(),
        es[key_index(es, k)].0 == k,
        forall|j: int| 0 <= j < key_index(es, k) ==> es[j].0 != k,
    decreases es.len(),
{
    if es[0].0 == k {
    } else {
        assert(contains_key(es.drop_first(), k)) by {
            let i = choose|i: int| 0 <= i < es.len() && es[i].0 == k;
            assert(es.drop_first()[i - 1].0 == k);
        }
        lemma_key_index(es.drop_first(), k);
        assert forall|j: int| 0 <= j < key_index(es, k) implies es[j].0 != k by {
            if j > 0 {
                assert(es.drop_first()[j - 1].0 != k);
            }
        }
    }
}

/// A map with no entry named `k` up to position `i` and a match at `i` has
/// `key_index` equal to `i`.
pub proof fn lemma_key_index_is_first(es: Entries, k: Seq<char>, i: int)
    requires
        0 <= i < es.len(),
        es[i].0 == k,
        forall|j: int| 0 <= j < i ==> es[j].0 != k,
    ensures
        contains_key(es, k),
        key_index(es, k) == i,
{
    lemma_key_index(es, k);
    let ki = key_index(es, k);
    if ki < i {
        assert(es[ki].0 != k);
    }
    if ki > i {
        assert(es[i].0 != k);
    }
}

/// No two entries carry the same name.
pub open spec fn wf_entries(es: Entries) -> bool {
    forall|i: int, j: int| 0 <= i < j < es.len() ==> es[i].0 != es[j].0
}

/// Writing an entry keeps names unique.
pub proof fn lemma_insert_wf(es: Entries, k: Seq<char>, v: ValueView)
    requires
        wf_entries(es),
    ensures
        wf_entries(insert_entry(es, k, v)),
{
    if contains_key(es, k) {
        lemma_key_index(es, k);
        let r = insert_entry(es, k, v);
        assert forall|i: int, j: int| 0 <= i < j < r.len() implies r[i].0 != r[j].0 by {
            assert(es[i].0 != es[j].0);
        }
    } else {
        let r = insert_entry(es, k, v);
        assert forall|i: int, j: int| 0 <= i < j < r.len() implies r[i].0 != r[j].0 by {
            if j < es.len() {
                assert(es[i].0 != es[j].0);
            } else {
                if es[i].0 == k {
                    assert(contains_key(es, k));
                }
            }
        }
    }
}

/// Removing an entry keeps names unique.
pub proof fn lemma_remove_wf(es: Entries, k: Seq<char>)
    requires
        wf_entries(es),
    ensures
        wf_entries(remove_key(es, k)),
{
    if contains_key(es, k) {
        lemma_key_index(es, k);
        let idx = key_index(es, k);
        let r = es.remove(idx);
        assert forall|i: int, j: int| 0 <= i < j < r.len() implies r[i].0 != r[j].0 by {
            let oi: int = if i < idx {
                i
            } else {
                i + 1
            };
            let oj: int = if j < idx {
                j
            } else {
                j + 1
            };
            assert(r[i] == es[oi]);
            assert(r[j] == es[oj]);
            assert(es[oi].0 != es[oj].0);
        }
    }
}

/// After removing the entry named `k` from a map with unique names, no
/// entry named `k` remains.
pub proof fn lemma_remove_key_absent(es: Entries, k: Seq<char>)
    requires
        wf_entries(es),
    ensures
        !contains_key(remove_key(es, k), k),
{
    if contains_key(es, k) {
        lemma_key_index(es, k);
        let idx = key_index(es, k);
        let r = es.remove(idx);
        assert forall|i: int| 0 <= i < r.len() implies r[i].0 != k by {
            let oi: int = if i < idx {
                i
            } else {
                i + 1
            };
            assert(r[i] == es[oi]);
            if oi < idx {
                assert(es[oi].0 != k);
            } else {
                assert(oi > idx);
                assert(es[idx].0 == k);
                assert(es[idx].0 != es[oi].0);
            }
        }
    } else {
        assert(remove_key(es, k) == es);
    }
}

/// Merging keeps names unique.
pub proof fn lemma_merge_wf(es: Entries, other: Entries)
    requires
        wf_entries(es),
    ensures
        wf_entries(merge_entries(es, other)),
    decreases other.len(),
{
    if other.len() > 0 {
        lemma_insert_wf(es, other[0].0, other[0].1);
        lemma_merge_wf(insert_entry(es, other[0].0, other[0].1), other.drop_first());
    }
}

/// An ordered map from field names to values, with unique names.
pub struct FieldMap {
    entries: Vec<(String, FieldValue)>,
}

impl View for FieldMap {
    type V = Entries;

    closed spec fn view(&self) -> Entries {
        self.entries@.map(|i: int, e: (String, FieldValue)| (e.0@, e.1@))
    }
}

impl FieldMap {
    /// An empty map.
    pub fn new() -> (r: Self)
        ensures
            r@ == Seq::<(Seq<char>, ValueView)>::empty(),
            wf_entries(r@),
    {
        let r = FieldMap { entries: Vec::new() };
        proof {
            assert(r@ =~= Seq::<(Seq<char>, ValueView)>::empty());
        }
        r
    }

    /// How many fields are recorded.
    pub fn len(&self) -> (n: usize)
        ensures
            n == self@.len(),
    {
        self.entries.len()
    }

    /// Whether no field is recorded.
    pub fn is_empty(&self) -> (r: bool)
        ensures
            r == (self@.len() == 0),
    {
        self.entries.len() == 0
    }

    /// Write `v` under the name `k`: overwrite in place if `k` is already
    /// present, append otherwise.
    #[verifier::loop_isolation(false)]
    pub fn insert(&mut self, k: String, v: FieldValue)
        ensures
            final(self)@ == insert_entry(old(self)@, k@, v@),
            wf_entries(old(self)@) ==> wf_entries(final(self)@),
    {
        proof {
            if wf_entries(self@) {
                lemma_insert_wf(self@, k@, v@);
            }
        }
        let ghost es = self@;
        let n = self.entries.len();
        for i in 0..n
            invariant
                n == self.entries.len(),
                es == self@,
                forall|j: int| 0 <= j < i ==> es[j].0 != k@,
        {
            if self.entries[i].0 == k {
                proof {
                    lemma_key_index_is_first(es, k@, i as int);
                }
                let existing_key = self.entries[i].0.clone();
                self.entries.set(i, (existing_key, v));
                proof {
                    assert(self@ =~= insert_entry(es, k@, v@));
                }
                return;
            }
        }
        proof {
            if contains_key(es, k@) {
                let i = choose|i: int| 0 <= i < es.len() && es[i].0 == k@;
                assert(es[i].0 != k@);
            }
        }
        self.entries.push((k, v));
        proof {
            assert(self@ =~= insert_entry(es, k@, v@));
        }
    }

    /// Take out the entry named `k`, returning its value, or leave the map
    /// unchanged and return `None` if `k` is absent.
    #[verifier::loop_isolation(false)]
    pub fn remove(&mut self, k: &String) -> (r: Option<FieldValue>)
        ensures
            final(self)@ == remove_key(old(self)@, k@),
            r matches Some(v) ==> get_value(old(self)@, k@) matches Some(w) && v@ == w,
            r is None <==> !contains_key(old(self)@, k@),
            wf_entries(old(self)@) ==> wf_entries(final(self)@),
    {
        proof {
            if wf_entries(self@) {
                lemma_remove_wf(self@, k@);
            }
        }
        let ghost es = self@;
        let n = self.entries.len();
        for i in 0..n
            invariant
                n == self.entries.len(),
                es == self@,
                forall|j: int| 0 <= j < i ==> es[j].0 != k@,
        {
            if self.entries[i].0 == *k {
                proof {
                    lemma_key_index_is_first(es, k@, i as int);
                }
                let pair = self.entries.remove(i);
                proof {
                    assert(self@ =~= remove_key(es, k@));
                }
                return Some(pair.1);
            }
        }
        proof {
            if contains_key(es, k@) {
                let i = choose|i: int| 0 <= i < es.len() && es[i].0 == k@;
                assert(es[i].0 != k@);
            }
        }
        None
    }

    /// Write every entry of `other`, in order, into this map.
    #[verifier::loop_isolation(false)]
    pub fn merge(&mut self, other: &FieldMap)
        ensures
            final(self)@ == merge_entries(old(self)@, other@),
            wf_entries(old(self)@) ==> wf_entries(final(self)@),
    {
        proof {
            assert(other@.skip(0) =~= other@);
            if wf_entries(self@) {
                lemma_merge_wf(self@, other@);
            }
        }
        let n = other.entries.len();
        for i in 0..n
            invariant
                n == other.entries.len(),
                merge_entries(self@, other@.skip(i as int)) == merge_entries(old(self)@, other@),
        {
            let ghost before = self@;
            let k = other.entries[i].0.clone();
            let v = other.entries[i].1.clone();
            self.insert(k, v);
            proof {
                let rest = other@.skip(i as int);
                assert(rest[0] == other@[i as int]);
                assert(rest.drop_first() =~= other@.skip(i as int + 1));
                assert(merge_entries(before, rest) == merge_entries(
                    insert_entry(before, other@[i as int].0, other@[i as int].1),
                    other@.skip(i as int + 1),
                ));
            }
        }
        proof {
            assert(other@.skip(n as int) =~= Seq::<(Seq<char>, ValueView)>::empty());
        }
    }

    /// The recorded entries, in order.
    pub fn entries(&self) -> (r: &Vec<(String, FieldValue)>)
        ensures
            r@.map(|i: int, e: (String, FieldValue)| (e.0@, e.1@)) == self@,
    {
        &self.entries
    }

    /// A map with the same entries.
    #[verifier::loop_isolation(false)]
    pub fn duplicate(&self) -> (r: Self)
        ensures
            r@ == self@,
    {
        let mut entries: Vec<(String, FieldValue)> = Vec::new();
        let n = self.entries.len();
        for i in 0..n
            invariant
                n == self.entries.len(),
                entries@.map(|j: int, e: (String, FieldValue)| (e.0@, e.1@)) =~= self@.take(
                    i as int,
                ),
        {
            let k = self.entries[i].0.clone();
            let v = self.entries[i].1.clone();
            entries.push((k, v));
            proof {
                assert(entries@.map(|j: int, e: (String, FieldValue)| (e.0@, e.1@)) =~= self@.take(
                    i as int + 1,
                ));
            }
        }
        let r = FieldMap { entries };
        proof {
            assert(self@.take(n as int) =~= self@);
        }
        r
    }
}

} // verus!
