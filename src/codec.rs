use vstd::prelude::*;

use crate::credentials::{last_wins, record_view, Credential};
use crate::error::BrokerError;
use crate::strmap::{distinct_keys, pairs_map, pairs_view, StrMap};
use crate::text::owned;

verus! {

/// The JSON text of the object whose members are the entries of the map.
pub uninterp spec fn json_object_bytes(entries: Map<Seq<char>, Seq<char>>) -> Seq<u8>;

/// The members of the JSON object of string values that the bytes hold;
/// `None` where they hold no such object.
pub uninterp spec fn json_string_map(bytes: Seq<u8>) -> Option<Map<Seq<char>, Seq<char>>>;

/// Relies on `serde_json::to_vec` of a `BTreeMap<String, String>`: a map of
/// string keys always serialises, and as its keys are kept sorted the text
/// depends on the entries alone.
#[verifier::external_body]
fn to_json(entries: &Vec<(String, String)>) -> (r: Vec<u8>)
    requires
        distinct_keys(pairs_view(entries@)),
    ensures
        r@ == json_object_bytes(pairs_map(pairs_view(entries@))),
{
    let m: std::collections::BTreeMap<&String, &String> = entries.iter().map(|(k, v)| (k, v)).collect();
    serde_json::to_vec(&m).unwrap_or_default()
}

/// Relies on `serde_json::from_slice` into a `BTreeMap<String, String>`:
/// it succeeds exactly on the text of an object whose values are strings,
/// and the map holds each key once.
#[verifier::external_body]
fn from_json(bytes: &[u8]) -> (r: Option<Vec<(String, String)>>)
    ensures
        r is Some <==> json_string_map(bytes@) is Some,
        r matches Some(v) ==> distinct_keys(pairs_view(v@)) && pairs_map(pairs_view(v@)) == json_string_map(bytes@)->Some_0,
{
    match serde_json::from_slice::<std::collections::BTreeMap<String, String>>(bytes) {
        Ok(m) => Some(m.into_iter().collect()),
        Err(_) => None,
    }
}

/// The stored form of a credential record: a JSON object with one member
/// per key, the last value given for a key winning.
pub fn encode_record(creds: &Vec<Credential>) -> (r: Vec<u8>)
    ensures
        r@ == json_object_bytes(last_wins(record_view(creds@))),
{
    let ghost rec = record_view(creds@);
    let mut m: StrMap<String> = StrMap::new();
    let mut i: usize = 0;
    assert(m.view().map_values(|v: String| v@) =~= last_wins(rec.subrange(0, 0)));
    while i < creds.len()
        invariant
            rec == record_view(creds@),
            i <= creds@.len(),
            m.wf(),
            m.view().map_values(|v: String| v@) == last_wins(rec.subrange(0, i as int)),
        decreases creds@.len() - i,
    {
        let ghost before = m.view().map_values(|v: String| v@);
        m.insert(creds[i].key.as_str(), owned(creds[i].value.as_str()));
        assert(rec.subrange(0, i + 1).drop_last() =~= rec.subrange(0, i as int));
        assert(m.view().map_values(|v: String| v@) =~= before.insert(rec[i as int].0, rec[i as int].1));
        i = i + 1;
    }
    assert(rec.subrange(0, i as int) =~= rec);
    let pairs = m.to_pairs();
    to_json(&pairs)
}

/// Reads a stored credential record back; a backend error where the bytes
/// hold no JSON object of string values.
pub fn decode_record(bytes: &[u8]) -> (r: Result<Vec<Credential>, BrokerError>)
    ensures
        r is Ok <==> json_string_map(bytes@) is Some,
        r matches Ok(c) ==> distinct_keys(record_view(c@)) && pairs_map(record_view(c@)) == json_string_map(bytes@)->Some_0,
        r is Err ==> r->Err_0 is BackendError,
{
    match from_json(bytes) {
        Some(pairs) => {
            let ghost pv = pairs_view(pairs@);
            let mut out: Vec<Credential> = Vec::new();
            let mut i: usize = 0;
            while i < pairs.len()
                invariant
                    pv == pairs_view(pairs@),
                    i <= pairs@.len(),
                    out@.len() == i,
                    forall|k: int| 0 <= k < i ==> #[trigger] out@[k]@ == pv[k],
                decreases pairs@.len() - i,
            {
                out.push(Credential { key: owned(pairs[i].0.as_str()), value: owned(pairs[i].1.as_str()) });
                i = i + 1;
            }
            assert(record_view(out@) =~= pv);
            Ok(out)
        },
        None => Err(BrokerError::BackendError(owned("stored credentials are not a JSON object of strings"))),
    }
}

} // verus!
