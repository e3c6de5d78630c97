use vstd::prelude::*;

use crate::credentials::Request;
use crate::params::{all_params, first_param, get_param, get_params, key_value_of, querify, query_pairs, split_first, split_once};
use crate::text::{owned, str_eq};

verus! {

/// A lifecycle call, as decoded from the path and query of an HTTP request.
pub enum LifecycleRequest {
    Provision { context: String, type_: String, tier: Option<String>, requests: Option<Vec<Request>> },
    Update { instance_id: String, tier: Option<String>, requests: Option<Vec<Request>> },
    Destroy { instance_id: String, retain: Option<bool> },
    Bind { context: String, instance_id: String, scopes: Option<Vec<String>> },
    ListBindings { instance_id: String },
    Unbind { binding_id: String },
    NotFound { path: String },
}

/// An optional string, as characters.
pub open spec fn opt_view(o: Option<String>) -> Option<Seq<char>> {
    match o {
        Some(s) => Some(s@),
        None => None,
    }
}

/// Optional requests, as key and value pairs.
pub open spec fn requests_view(o: Option<Vec<Request>>) -> Option<Seq<(Seq<char>, Seq<char>)>> {
    match o {
        Some(v) => Some(v@.map_values(|r: Request| (r.key@, r.value@))),
        None => None,
    }
}

/// Optional strings, as characters.
pub open spec fn opt_strings_view(o: Option<Vec<String>>) -> Option<Seq<Seq<char>>> {
    match o {
        Some(v) => Some(v@.map_values(|s: String| s@)),
        None => None,
    }
}

/// The value of parameter `key`, or the empty text where it is absent.
pub open spec fn param_or_empty(q: Seq<(Seq<char>, Seq<char>)>, key: Seq<char>) -> Seq<char> {
    match first_param(q, key) {
        Some(v) => v,
        None => Seq::empty(),
    }
}

/// All values of parameter `key`; `None` where there are none.
pub open spec fn optional_params(q: Seq<(Seq<char>, Seq<char>)>, key: Seq<char>) -> Option<Seq<Seq<char>>> {
    if all_params(q, key).len() == 0 {
        None
    } else {
        Some(all_params(q, key))
    }
}

/// The `requests` parameters, each read as `key=value`.
pub open spec fn requests_param(q: Seq<(Seq<char>, Seq<char>)>) -> Option<Seq<(Seq<char>, Seq<char>)>> {
    match optional_params(q, "requests"@) {
        Some(v) => Some(v.map_values(|s: Seq<char>| key_value_of(s))),
        None => None,
    }
}

/// The `retain` parameter: true only where it reads `true`.
pub open spec fn retain_param(q: Seq<(Seq<char>, Seq<char>)>) -> Option<bool> {
    match first_param(q, "retain"@) {
        Some(v) => Some(v == "true"@),
        None => None,
    }
}

/// The path of a request target, and the pairs of its query.
pub open spec fn target_parts(path_with_query: Seq<char>) -> (Seq<char>, Seq<(Seq<char>, Seq<char>)>) {
    let (path, query) = split_first(path_with_query, '?');
    (path, query_pairs(match query {
        Some(q) => q,
        None => Seq::empty(),
    }))
}

/// The decoded call is the one that the path names, with its parameters.
pub open spec fn decodes_to(path_with_query: Seq<char>, r: LifecycleRequest) -> bool {
    let (path, q) = target_parts(path_with_query);
    if path == "/provision"@ {
        r matches LifecycleRequest::Provision { context, type_, tier, requests }
            && context@ == param_or_empty(q, "context"@) && type_@ == param_or_empty(q, "type"@)
            && opt_view(tier) == first_param(q, "tier"@) && requests_view(requests) == requests_param(q)
    } else if path == "/update"@ {
        r matches LifecycleRequest::Update { instance_id, tier, requests }
            && instance_id@ == param_or_empty(q, "instance-id"@)
            && opt_view(tier) == first_param(q, "tier"@) && requests_view(requests) == requests_param(q)
    } else if path == "/destroy"@ {
        r matches LifecycleRequest::Destroy { instance_id, retain }
            && instance_id@ == param_or_empty(q, "instance-id"@) && retain == retain_param(q)
    } else if path == "/bind"@ {
        r matches LifecycleRequest::Bind { context, instance_id, scopes }
            && context@ == param_or_empty(q, "context"@) && instance_id@ == param_or_empty(q, "instance-id"@)
            && opt_strings_view(scopes) == optional_params(q, "scopes"@)
    } else if path == "/list-bindings"@ {
        r matches LifecycleRequest::ListBindings { instance_id } && instance_id@ == param_or_empty(q, "instance-id"@)
    } else if path == "/unbind"@ {
        r matches LifecycleRequest::Unbind { binding_id } && binding_id@ == param_or_empty(q, "binding-id"@)
    } else {
        r matches LifecycleRequest::NotFound { path: p } && p@ == path
    }
}

fn param_or_empty_text(query: &Vec<crate::params::QueryParam>, key: &str) -> (r: String)
    ensures
        r@ == param_or_empty(crate::params::params_view(query@), key@),
{
    match get_param(query, key) {
        Some(v) => v,
        None => String::new(),
    }
}

fn requests_text(query: &Vec<crate::params::QueryParam>) -> (r: Option<Vec<Request>>)
    ensures
        requests_view(r) == requests_param(crate::params::params_view(query@)),
{
    match get_params(query, "requests") {
        Some(values) => {
            let ghost vs = values@.map_values(|s: String| s@);
            let mut out: Vec<Request> = Vec::new();
            let mut i: usize = 0;
            while i < values.len()
                invariant
                    vs == values@.map_values(|s: String| s@),
                    i <= values@.len(),
                    out@.len() == i,
                    forall|k: int| 0 <= k < i ==> (#[trigger] out@[k].key@, out@[k].value@) == key_value_of(vs[k]),
                decreases values@.len() - i,
            {
                out.push(Request::parse(values[i].as_str()));
                i = i + 1;
            }
            let r = Some(out);
            assert(requests_view(r)->Some_0 =~= vs.map_values(|s: Seq<char>| key_value_of(s)));
            r
        },
        None => None,
    }
}

/// Decodes the path and query of a request into the lifecycle call it asks for.
pub fn decode_request(path_with_query: &str) -> (r: LifecycleRequest)
    ensures
        decodes_to(path_with_query@, r),
{
    let (path, query) = split_once(path_with_query, '?');
    let query_text = match query {
        Some(q) => q,
        None => String::new(),
    };
    let q = querify(query_text.as_str());
    let p = path.as_str();
    if str_eq(p, "/provision") {
        LifecycleRequest::Provision {
            context: param_or_empty_text(&q, "context"),
            type_: param_or_empty_text(&q, "type"),
            tier: get_param(&q, "tier"),
            requests: requests_text(&q),
        }
    } else if str_eq(p, "/update") {
        LifecycleRequest::Update {
            instance_id: param_or_empty_text(&q, "instance-id"),
            tier: get_param(&q, "tier"),
            requests: requests_text(&q),
        }
    } else if str_eq(p, "/destroy") {
        let retain = match get_param(&q, "retain") {
            Some(v) => Some(str_eq(v.as_str(), "true")),
            None => None,
        };
        LifecycleRequest::Destroy { instance_id: param_or_empty_text(&q, "instance-id"), retain }
    } else if str_eq(p, "/bind") {
        LifecycleRequest::Bind {
            context: param_or_empty_text(&q, "context"),
            instance_id: param_or_empty_text(&q, "instance-id"),
            scopes: get_params(&q, "scopes"),
        }
    } else if str_eq(p, "/list-bindings") {
        LifecycleRequest::ListBindings { instance_id: param_or_empty_text(&q, "instance-id") }
    } else if str_eq(p, "/unbind") {
        LifecycleRequest::Unbind { binding_id: param_or_empty_text(&q, "binding-id") }
    } else {
        LifecycleRequest::NotFound { path: owned(p) }
    }
}

} // verus!
