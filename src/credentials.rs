use vstd::prelude::*;

use crate::strmap::{distinct_keys, pairs_map, pairs_view, StrMap};
use crate::text::{owned, str_eq};

verus! {

/// One (key, value) entry of a credential record.
pub struct Credential {
    pub key: String,
    pub value: String,
}

impl View for Credential {
    type V = (Seq<char>, Seq<char>);

    open spec fn view(&self) -> (Seq<char>, Seq<char>) {
        (self.key@, self.value@)
    }
}

/// The entries of a credential record, as pairs of strings.
pub open spec fn record_view(creds: Seq<Credential>) -> Seq<(Seq<char>, Seq<char>)> {
    creds.map_values(|c: Credential| c@)
}

/// The value of the first entry with the given key.
pub open spec fn lookup(record: Seq<(Seq<char>, Seq<char>)>, key: Seq<char>) -> Option<Seq<char>>
    decreases record.len(),
{
    if record.len() == 0 {
        None
    } else if record[0].0 == key {
        Some(record[0].1)
    } else {
        lookup(record.drop_first(), key)
    }
}

/// Whether the record holds an entry with exactly this key and value.
pub open spec fn has_entry(record: Seq<(Seq<char>, Seq<char>)>, key: Seq<char>, value: Seq<char>) -> bool {
    exists|i: int| 0 <= i < record.len() && #[trigger] record[i] == (key, value)
}

/// The entries of a record as a map, a later value for a key replacing an earlier one.
pub open spec fn last_wins(record: Seq<(Seq<char>, Seq<char>)>) -> Map<Seq<char>, Seq<char>>
    decreases record.len(),
{
    if record.len() == 0 {
        Map::empty()
    } else {
        last_wins(record.drop_last()).insert(record.last().0, record.last().1)
    }
}

/// The value of `key` in a record map.
pub open spec fn record_value(record: Map<Seq<char>, Seq<char>>, key: Seq<char>) -> Option<Seq<char>> {
    if record.contains_key(key) {
        Some(record[key])
    } else {
        None
    }
}

/// Where `lookup` finds nothing, no entry has the key.
pub proof fn lemma_lookup_none(record: Seq<(Seq<char>, Seq<char>)>, key: Seq<char>)
    ensures
        lookup(record, key) is None ==> forall|i: int| 0 <= i < record.len() ==> #[trigger] record[i].0 != key,
    decreases record.len(),
{
    if record.len() > 0 && record[0].0 != key {
        lemma_lookup_none(record.drop_first(), key);
        if lookup(record, key) is None {
            assert forall|i: int| 0 <= i < record.len() implies #[trigger] record[i].0 != key by {
                if i > 0 {
                    assert(record[i] == record.drop_first()[i - 1]);
                }
            }
        }
    }
}

/// In a record with distinct keys, each entry is what the map of the record holds for its key.
pub proof fn lemma_pairs_map_entry(record: Seq<(Seq<char>, Seq<char>)>, i: int)
    requires
        distinct_keys(record),
        0 <= i < record.len(),
    ensures
        pairs_map(record).contains_key(record[i].0),
        pairs_map(record)[record[i].0] == record[i].1,
{
    let k = record[i].0;
    assert(pairs_map(record).contains_key(k));
    let j = choose|j: int| 0 <= j < record.len() && record[j].0 == k;
    if j < i {
        assert(record[j].0 != record[i].0);
    } else if i < j {
        assert(record[i].0 != record[j].0);
    }
}

/// In a record with distinct keys, `lookup` agrees with the map of the record.
pub proof fn lemma_lookup_distinct(record: Seq<(Seq<char>, Seq<char>)>, key: Seq<char>)
    requires
        distinct_keys(record),
    ensures
        lookup(record, key) == record_value(pairs_map(record), key),
{
    lemma_lookup_has_entry(record, key);
    lemma_lookup_none(record, key);
    if let Some(v) = lookup(record, key) {
        let i = choose|i: int| 0 <= i < record.len() && #[trigger] record[i] == (key, v);
        lemma_pairs_map_entry(record, i);
    }
}

/// One provisioning parameter, forwarded to a provider without interpretation.
pub struct Request {
    pub key: String,
    pub value: String,
}

/// The entry that `lookup` finds is an entry of the record.
pub proof fn lemma_lookup_has_entry(record: Seq<(Seq<char>, Seq<char>)>, key: Seq<char>)
    ensures
        lookup(record, key) matches Some(v) ==> has_entry(record, key, v),
    decreases record.len(),
{
    if record.len() > 0 && record[0].0 != key {
        lemma_lookup_has_entry(record.drop_first(), key);
        if let Some(v) = lookup(record, key) {
            let i = choose|i: int| 0 <= i < record.drop_first().len() && #[trigger] record.drop_first()[i] == (key, v);
            assert(record[i + 1] == (key, v));
        }
    } else if record.len() > 0 {
        assert(record[0] == (key, record[0].1));
    }
}

impl Credential {
    /// An entry with the given key and value.
    pub fn new(key: &str, value: &str) -> (r: Credential)
        ensures
            r@ == (key@, value@),
    {
        Credential { key: owned(key), value: owned(value) }
    }

    /// A copy of this entry.
    pub fn copy(&self) -> (r: Credential)
        ensures
            r@ == self@,
    {
        Credential { key: owned(self.key.as_str()), value: owned(self.value.as_str()) }
    }
}

/// A copy of a credential record.
pub fn copy_record(creds: &Vec<Credential>) -> (r: Vec<Credential>)
    ensures
        record_view(r@) == record_view(creds@),
{
    let mut r: Vec<Credential> = Vec::new();
    let mut i: usize = 0;
    while i < creds.len()
        invariant
            i <= creds@.len(),
            r@.len() == i,
            forall|k: int| 0 <= k < i ==> #[trigger] r@[k]@ == creds@[k]@,
        decreases creds@.len() - i,
    {
        r.push(creds[i].copy());
        i = i + 1;
    }
    assert(record_view(r@) =~= record_view(creds@));
    r
}

/// The value of the first entry of `creds` whose key is `key`.
pub fn find_value(creds: &Vec<Credential>, key: &str) -> (r: Option<String>)
    ensures
        r matches Some(v) ==> lookup(record_view(creds@), key@) == Some(v@),
        r is None ==> lookup(record_view(creds@), key@) is None,
        distinct_keys(record_view(creds@)) ==> (r matches Some(v) ==> record_value(pairs_map(record_view(creds@)), key@) == Some(v@)),
        distinct_keys(record_view(creds@)) ==> (r is None ==> record_value(pairs_map(record_view(creds@)), key@) is None),
{
    proof {
        if distinct_keys(record_view(creds@)) {
            lemma_lookup_distinct(record_view(creds@), key@);
        }
    }
    let mut i: usize = 0;
    assert(record_view(creds@).subrange(0, creds@.len() as int) =~= record_view(creds@));
    while i < creds.len()
        invariant
            i <= creds@.len(),
            lookup(record_view(creds@), key@) == lookup(record_view(creds@).subrange(i as int, creds@.len() as int), key@),
        decreases creds@.len() - i,
    {
        let ghost rest = record_view(creds@).subrange(i as int, creds@.len() as int);
        if str_eq(creds[i].key.as_str(), key) {
            return Some(owned(creds[i].value.as_str()));
        }
        assert(rest.drop_first() =~= record_view(creds@).subrange(i + 1, creds@.len() as int));
        i = i + 1;
    }
    None
}

/// The record with one entry per key, holding the last value given for it.
pub fn dedupe_record(creds: &Vec<Credential>) -> (r: Vec<Credential>)
    ensures
        distinct_keys(record_view(r@)),
        pairs_map(record_view(r@)) == last_wins(record_view(creds@)),
{
    let ghost rec = record_view(creds@);
    let mut m: StrMap<String> = StrMap::new();
    let mut i: usize = 0;
    assert(m.view().map_values(|v: String| v@) =~= last_wins(rec.subrange(0, 0)));
    while i < creds.len()
        invariant
            rec == record_view(creds@),
            i <= creds@.len(),
            m.wf(),
            m.view().map_values(|v: String| v@) == last_wins(rec.subrange(0, i as int)),
        decreases creds@.len() - i,
    {
        let ghost before = m.view().map_values(|v: String| v@);
        m.insert(creds[i].key.as_str(), owned(creds[i].value.as_str()));
        assert(rec.subrange(0, i + 1).drop_last() =~= rec.subrange(0, i as int));
        assert(m.view().map_values(|v: String| v@) =~= before.insert(rec[i as int].0, rec[i as int].1));
        i = i + 1;
    }
    assert(rec.subrange(0, i as int) =~= rec);
    let pairs = m.to_pairs();
    let ghost pv = pairs_view(pairs@);
    let mut out: Vec<Credential> = Vec::new();
    let mut j: usize = 0;
    while j < pairs.len()
        invariant
            pv == pairs_view(pairs@),
            j <= pairs@.len(),
            out@.len() == j,
            forall|k: int| 0 <= k < j ==> #[trigger] out@[k]@ == pv[k],
        decreases pairs@.len() - j,
    {
        out.push(Credential { key: owned(pairs[j].0.as_str()), value: owned(pairs[j].1.as_str()) });
        j = j + 1;
    }
    assert(record_view(out@) =~= pv);
    out
}

} // verus!
