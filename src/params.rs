use vstd::prelude::*;
use vstd::string::*;

use crate::credentials::Request;
use crate::text::{owned, str_eq};

verus! {

/// `k` is the first position of `c` in `s`.
pub open spec fn is_first_index(s: Seq<char>, c: char, k: int) -> bool {
    0 <= k < s.len() && s[k] == c && forall|j: int| 0 <= j < k ==> s[j] != c
}

/// `s` split at its first `c`: the text before it and, where `c` occurs, the text after it.
pub open spec fn split_first(s: Seq<char>, c: char) -> (Seq<char>, Option<Seq<char>>) {
    if exists|k: int| is_first_index(s, c, k) {
        let k = choose|k: int| is_first_index(s, c, k);
        (s.subrange(0, k), Some(s.subrange(k + 1, s.len() as int)))
    } else {
        (s, None)
    }
}

/// Splits `s` at its first `c`.
pub fn split_once(s: &str, c: char) -> (r: (String, Option<String>))
    ensures
        r.0@ == split_first(s@, c).0,
        r.1 matches Some(t) ==> split_first(s@, c).1 == Some(t@),
        r.1 is None ==> split_first(s@, c).1 is None,
{
    let n = s.unicode_len();
    let mut i: usize = 0;
    while i < n
        invariant
            n == s@.len(),
            i <= n,
            forall|j: int| 0 <= j < i ==> s@[j] != c,
        decreases n - i,
    {
        if s.get_char(i) == c {
            proof {
                assert(is_first_index(s@, c, i as int));
                let k = choose|k: int| is_first_index(s@, c, k);
                assert(k == i) by {
                    if k < i {
                        assert(s@[k] != c);
                    } else if k > i {
                        assert(s@[i as int] != c);
                    }
                }
            }
            let before = owned(s.substring_char(0, i));
            let after = owned(s.substring_char(i + 1, n));
            return (before, Some(after));
        }
        i = i + 1;
    }
    assert(!exists|k: int| is_first_index(s@, c, k));
    (owned(s), None)
}

/// The key and value of a `key=value` text: the text before the first `=`,
/// and the rest after it (empty where there is no `=`).
pub open spec fn key_value_of(s: Seq<char>) -> (Seq<char>, Seq<char>) {
    let (k, v) = split_first(s, '=');
    (k, match v {
        Some(v) => v,
        None => Seq::empty(),
    })
}

impl Request {
    /// Parses a `key=value` request parameter.
    pub fn parse(s: &str) -> (r: Request)
        ensures
            (r.key@, r.value@) == key_value_of(s@),
    {
        let (key, value) = split_once(s, '=');
        let value = match value {
            Some(v) => v,
            None => String::new(),
        };
        Request { key, value }
    }
}

/// One `key=value` pair of a query string.
pub struct QueryParam {
    pub key: String,
    pub value: String,
}

/// The pairs of a query string, as strings.
pub open spec fn params_view(q: Seq<QueryParam>) -> Seq<(Seq<char>, Seq<char>)> {
    q.map_values(|p: QueryParam| (p.key@, p.value@))
}

/// `s` cut at every `c`, as `str::split` cuts it: there is always at least
/// one piece, and a separator at either end gives an empty piece there.
pub open spec fn split_all(s: Seq<char>, c: char) -> Seq<Seq<char>>
    decreases s.len(),
{
    if s.len() == 0 {
        seq![Seq::empty()]
    } else {
        let init = split_all(s.drop_last(), c);
        if s.last() == c {
            init.push(Seq::empty())
        } else {
            init.update(init.len() - 1, init.last().push(s.last()))
        }
    }
}

/// The pair that one `&`-separated segment gives: its first two
/// `=`-separated pieces, where it has at least two.
pub open spec fn segment_pair(segment: Seq<char>) -> Option<(Seq<char>, Seq<char>)> {
    let pieces = split_all(segment, '=');
    if pieces.len() >= 2 {
        Some((pieces[0], pieces[1]))
    } else {
        None
    }
}

/// The pairs of the segments that give one, in order.
pub open spec fn segments_pairs(segments: Seq<Seq<char>>) -> Seq<(Seq<char>, Seq<char>)>
    decreases segments.len(),
{
    if segments.len() == 0 {
        Seq::empty()
    } else {
        let rest = segments_pairs(segments.drop_last());
        match segment_pair(segments.last()) {
            Some(p) => rest.push(p),
            None => rest,
        }
    }
}

/// The `key=value` pairs of a query string, in order: the string is cut at
/// every `&`, segments without `=` are skipped, and the value of a pair ends
/// at the next `=` if there is one.
pub open spec fn query_pairs(query: Seq<char>) -> Seq<(Seq<char>, Seq<char>)> {
    segments_pairs(split_all(query, '&'))
}

/// Relies on `querystring::querify`, which splits the string at `&` and
/// keeps `(k, v)` from `pair.split('=').take(2)` where both pieces exist.
#[verifier::external_body]
pub(crate) fn querify(query: &str) -> (r: Vec<QueryParam>)
    ensures
        params_view(r@) == query_pairs(query@),
{
    querystring::querify(query)
        .into_iter()
        .map(|(k, v)| QueryParam { key: k.to_string(), value: v.to_string() })
        .collect()
}

/// The value of the first pair with key `key`.
pub open spec fn first_param(q: Seq<(Seq<char>, Seq<char>)>, key: Seq<char>) -> Option<Seq<char>>
    decreases q.len(),
{
    if q.len() == 0 {
        None
    } else if q[0].0 == key {
        Some(q[0].1)
    } else {
        first_param(q.drop_first(), key)
    }
}

/// The values of all pairs with key `key`, in order.
pub open spec fn all_params(q: Seq<(Seq<char>, Seq<char>)>, key: Seq<char>) -> Seq<Seq<char>>
    decreases q.len(),
{
    if q.len() == 0 {
        Seq::empty()
    } else if q.last().0 == key {
        all_params(q.drop_last(), key).push(q.last().1)
    } else {
        all_params(q.drop_last(), key)
    }
}

/// The value of the first parameter named `key`.
pub fn get_param(query: &Vec<QueryParam>, key: &str) -> (r: Option<String>)
    ensures
        r matches Some(v) ==> first_param(params_view(query@), key@) == Some(v@),
        r is None ==> first_param(params_view(query@), key@) is None,
{
    let ghost q = params_view(query@);
    let mut i: usize = 0;
    assert(q.subrange(0, q.len() as int) =~= q);
    while i < query.len()
        invariant
            q == params_view(query@),
            i <= query@.len(),
            first_param(q, key@) == first_param(q.subrange(i as int, q.len() as int), key@),
        decreases query@.len() - i,
    {
        if str_eq(query[i].key.as_str(), key) {
            return Some(owned(query[i].value.as_str()));
        }
        assert(q.subrange(i as int, q.len() as int).drop_first() =~= q.subrange(i + 1, q.len() as int));
        i = i + 1;
    }
    None
}

/// The values of all parameters named `key`; `None` where there are none.
pub fn get_params(query: &Vec<QueryParam>, key: &str) -> (r: Option<Vec<String>>)
    ensures
        r is None <==> all_params(params_view(query@), key@).len() == 0,
        r matches Some(v) ==> v@.map_values(|s: String| s@) == all_params(params_view(query@), key@),
{
    let ghost q = params_view(query@);
    let mut values: Vec<String> = Vec::new();
    let mut i: usize = 0;
    while i < query.len()
        invariant
            q == params_view(query@),
            i <= query@.len(),
            values@.map_values(|s: String| s@) == all_params(q.subrange(0, i as int), key@),
        decreases query@.len() - i,
    {
        let ghost prev = values@.map_values(|s: String| s@);
        assert(q.subrange(0, i + 1).drop_last() =~= q.subrange(0, i as int));
        if str_eq(query[i].key.as_str(), key) {
            values.push(owned(query[i].value.as_str()));
            assert(values@.map_values(|s: String| s@) =~= prev.push(q[i as int].1));
        }
        i = i + 1;
    }
    assert(q.subrange(0, i as int) =~= q);
    if values.len() == 0 {
        None
    } else {
        Some(values)
    }
}

} // verus!
