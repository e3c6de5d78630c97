use service_broker::config::CredentialConfig;
use service_broker::credentials::{find_value, Credential, Request};
use service_broker::error::BrokerError;
use service_broker::http::{decode_request, LifecycleRequest};
use service_broker::params::{get_param, get_params, split_once, QueryParam};
use service_broker::store::CredentialStore;

fn pairs(items: &[(&str, &str)]) -> Vec<QueryParam> {
    items
        .iter()
        .map(|(k, v)| QueryParam { key: k.to_string(), value: v.to_string() })
        .collect()
}

#[test]
fn request_parameters_split_at_first_equals() {
    let r = Request::parse("size=10=x");
    assert_eq!((r.key.as_str(), r.value.as_str()), ("size", "10=x"));
    let r = Request::parse("flag");
    assert_eq!((r.key.as_str(), r.value.as_str()), ("flag", ""));
    let r = Request::parse("=v");
    assert_eq!((r.key.as_str(), r.value.as_str()), ("", "v"));
}

#[test]
fn split_once_finds_first_separator() {
    assert_eq!(split_once("/a?b?c", '?'), ("/a".to_string(), Some("b?c".to_string())));
    assert_eq!(split_once("/a", '?'), ("/a".to_string(), None));
    assert_eq!(split_once("?", '?'), ("".to_string(), Some("".to_string())));
}

#[test]
fn first_and_all_parameter_values() {
    let q = pairs(&[("a", "1"), ("b", "2"), ("a", "3")]);
    assert_eq!(get_param(&q, "a"), Some("1".to_string()));
    assert_eq!(get_param(&q, "c"), None);
    assert_eq!(get_params(&q, "a"), Some(vec!["1".to_string(), "3".to_string()]));
    assert_eq!(get_params(&q, "c"), None);
}

#[test]
fn decode_provision_request() {
    match decode_request("/provision?type=filesystem&tier=gold&requests=a=1&requests=b&context=ctx") {
        LifecycleRequest::Provision { context, type_, tier, requests } => {
            assert_eq!(context, "ctx");
            assert_eq!(type_, "filesystem");
            assert_eq!(tier, Some("gold".to_string()));
            let requests = requests.unwrap();
            let got: Vec<(&str, &str)> = requests.iter().map(|r| (r.key.as_str(), r.value.as_str())).collect();
            assert_eq!(got, vec![("a", ""), ("b", "")]);
        }
        _ => panic!("expected a provision request"),
    }
    match decode_request("/provision") {
        LifecycleRequest::Provision { context, type_, tier, requests } => {
            assert_eq!(context, "");
            assert_eq!(type_, "");
            assert!(tier.is_none());
            assert!(requests.is_none());
        }
        _ => panic!("expected a provision request"),
    }
}

#[test]
fn decode_destroy_retain_flag() {
    assert!(matches!(
        decode_request("/destroy?instance-id=x&retain=true"),
        LifecycleRequest::Destroy { ref instance_id, retain: Some(true) } if instance_id == "x"
    ));
    assert!(matches!(
        decode_request("/destroy?instance-id=x&retain=yes"),
        LifecycleRequest::Destroy { retain: Some(false), .. }
    ));
    assert!(matches!(decode_request("/destroy?instance-id=x"), LifecycleRequest::Destroy { retain: None, .. }));
}

#[test]
fn decode_bind_unbind_list_update() {
    match decode_request("/bind?instance-id=i&scopes=read&scopes=write") {
        LifecycleRequest::Bind { instance_id, scopes, .. } => {
            assert_eq!(instance_id, "i");
            assert_eq!(scopes, Some(vec!["read".to_string(), "write".to_string()]));
        }
        _ => panic!("expected a bind request"),
    }
    assert!(matches!(
        decode_request("/unbind?binding-id=b"),
        LifecycleRequest::Unbind { ref binding_id } if binding_id == "b"
    ));
    assert!(matches!(
        decode_request("/list-bindings?instance-id=i"),
        LifecycleRequest::ListBindings { ref instance_id } if instance_id == "i"
    ));
    assert!(matches!(
        decode_request("/update?instance-id=i&tier=t"),
        LifecycleRequest::Update { ref instance_id, tier: Some(ref t), requests: None } if instance_id == "i" && t == "t"
    ));
    assert!(matches!(
        decode_request("/nowhere?x=1"),
        LifecycleRequest::NotFound { ref path } if path == "/nowhere"
    ));
}

#[test]
fn store_publish_replace_destroy() {
    let mut s = CredentialStore::new();
    assert!(s.fetch("a").is_empty());
    s.publish("a", vec![Credential::new("k", "1")]);
    s.publish("b", vec![Credential::new("k", "2")]);
    s.publish("a", vec![Credential::new("k", "3"), Credential::new("j", "4")]);
    let a = s.fetch("a");
    assert_eq!(a.len(), 2);
    assert_eq!(find_value(&a, "k"), Some("3".to_string()));
    assert_eq!(find_value(&s.fetch("b"), "k"), Some("2".to_string()));
    s.destroy("a");
    assert!(s.fetch("a").is_empty());
    assert_eq!(s.fetch("b").len(), 1);
}

#[test]
fn config_reads_binding_credentials() {
    let mut s = CredentialStore::new();
    s.publish("b", vec![Credential::new("hostname", "h"), Credential::new("port", "1")]);
    assert_eq!(CredentialConfig::get("port", Some("b"), &s), Ok(Some("1".to_string())));
    assert_eq!(CredentialConfig::get("user", Some("b"), &s), Ok(None));
    assert!(matches!(CredentialConfig::get("port", None, &s), Err(BrokerError::BackendError(_))));
    assert_eq!(
        CredentialConfig::get_all(Some("b"), &s),
        Ok(vec![("hostname".to_string(), "h".to_string()), ("port".to_string(), "1".to_string())])
    );
    assert_eq!(CredentialConfig::get_all(Some("missing"), &s), Ok(vec![]));
}

#[test]
fn store_keeps_last_value_of_a_repeated_key() {
    let mut s = CredentialStore::new();
    s.publish("a", vec![Credential::new("type", "x"), Credential::new("k", "1"), Credential::new("type", "y")]);
    let got = s.fetch("a");
    assert_eq!(got.len(), 2);
    assert_eq!(find_value(&got, "type"), Some("y".to_string()));
    assert_eq!(find_value(&got, "k"), Some("1".to_string()));
}

#[test]
fn query_pairs_follow_querify() {
    match decode_request("/unbind?binding-id=a=b&binding-id=c") {
        LifecycleRequest::Unbind { binding_id } => assert_eq!(binding_id, "a"),
        _ => panic!("expected an unbind request"),
    }
    match decode_request("/bind?junk&scopes=&instance-id=i&&scopes=write") {
        LifecycleRequest::Bind { instance_id, scopes, .. } => {
            assert_eq!(instance_id, "i");
            assert_eq!(scopes, Some(vec!["".to_string(), "write".to_string()]));
        }
        _ => panic!("expected a bind request"),
    }
}
