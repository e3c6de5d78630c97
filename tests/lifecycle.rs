use service_broker::credentials::{Credential, Request};
use service_broker::error::BrokerError;
use service_broker::router::{Lifecycle, LifecycleType};
use service_broker::valkey::ValkeyService;

const ISSUED: i64 = 1_700_000_000;

fn random(seed: u8) -> [u8; 16] {
    let mut b = [0u8; 16];
    for (i, x) in b.iter_mut().enumerate() {
        *x = seed.wrapping_mul(31).wrapping_add(i as u8 * 7 + 1);
    }
    b
}

fn router() -> Lifecycle {
    Lifecycle::new("services", "127.0.0.1", 6379)
}

fn value_of(creds: &[Credential], key: &str) -> Option<String> {
    creds.iter().find(|c| c.key == key).map(|c| c.value.clone())
}

fn strings(items: &[&str]) -> Vec<String> {
    items.iter().map(|s| s.to_string()).collect()
}

#[test]
fn filesystem_lifecycle_scenario() {
    let mut r = router();
    let i = r.provision(&random(1), "filesystem", None, None).unwrap();
    assert_eq!(value_of(&r.store.fetch(&i), "type"), Some("filesystem".to_string()));
    let b = r.bind(&random(2), &i, None, "", ISSUED).unwrap();
    assert_eq!(&b[0..23], &i[0..23]);
    assert_eq!(r.list_bindings(&i), Ok(vec![b.clone()]));
    r.unbind(&b).unwrap();
    assert_eq!(r.list_bindings(&i), Ok(vec![]));
}

#[test]
fn unknown_service_type_has_no_side_effects() {
    let mut r = router();
    let err = r.provision(&random(3), "unknown", None, None);
    assert!(matches!(err, Err(BrokerError::UnknownServiceType(_))));
    let would_be = service_broker::ids::UuidIds::generate_instance_id(&random(3));
    assert!(r.store.fetch(&would_be).is_empty());
    assert!(matches!(r.list_bindings(&would_be), Err(BrokerError::UnknownInstance(_))));
    assert!(r.filesystem.list_bindings(&would_be).is_err());
    assert_eq!(r.keyvalue.server.keys_with_prefix(""), Vec::<String>::new());
}

#[test]
fn fetch_after_bind_names_instance_and_binding() {
    let mut r = router();
    for ty in ["filesystem", "valkey"] {
        let i = r.provision(&random(4), ty, None, None).unwrap();
        let b = r.bind(&random(5), &i, None, "pw", ISSUED).unwrap();
        let creds = r.store.fetch(&b);
        assert_eq!(value_of(&creds, "instance-id"), Some(i.clone()));
        assert_eq!(value_of(&creds, "binding-id"), Some(b.clone()));
        assert_eq!(value_of(&creds, "type"), Some(ty.to_string()));
        assert_eq!(value_of(&creds, "issued-at"), Some("2023-11-14T22:13:20Z".to_string()));
        r.unbind(&b).unwrap();
        r.destroy(&i, None).unwrap();
    }
}

#[test]
fn filesystem_binding_credentials() {
    let mut r = router();
    let i = r.provision(&random(6), "filesystem", None, None).unwrap();
    let b = r.bind(&random(7), &i, None, "", 0).unwrap();
    let creds = r.store.fetch(&b);
    assert_eq!(creds.len(), 5);
    assert_eq!(value_of(&creds, "path"), Some(format!("services/instances/{i}/bindings/{b}")));
    assert_eq!(value_of(&creds, "issued-at"), Some("1970-01-01T00:00:00Z".to_string()));
}

#[test]
fn write_scope_grants_only_write_category() {
    let mut r = router();
    let i = r.provision(&random(8), "valkey", None, None).unwrap();
    let b = r.bind(&random(9), &i, Some(strings(&["write"])), "secret", ISSUED).unwrap();
    let rules = r.keyvalue.server.acl_getuser(&b).unwrap();
    let grants: Vec<&String> = rules.iter().filter(|x| x.starts_with("+@")).collect();
    assert_eq!(grants, vec!["+@write"]);
    assert!(!rules.contains(&"+@read".to_string()));
    assert_eq!(
        rules,
        strings(&["on", ">secret", "+@write", &format!("~instances:{i}:*")])
    );
}

#[test]
fn default_scopes_grant_read_and_write() {
    let mut r = router();
    let i = r.provision(&random(10), "valkey", None, None).unwrap();
    let b = r.bind(&random(11), &i, None, "secret", ISSUED).unwrap();
    let rules = r.keyvalue.server.acl_getuser(&b).unwrap();
    assert_eq!(
        rules,
        strings(&["on", ">secret", "+@read", "+@write", &format!("~instances:{i}:*")])
    );
    let creds = r.store.fetch(&b);
    assert_eq!(creds.len(), 10);
    assert_eq!(value_of(&creds, "scopes"), Some("read,write".to_string()));
    assert_eq!(value_of(&creds, "port"), Some("6379".to_string()));
    assert_eq!(value_of(&creds, "hostname"), Some("127.0.0.1".to_string()));
    assert_eq!(value_of(&creds, "username"), Some(b.clone()));
    assert_eq!(value_of(&creds, "password"), Some("secret".to_string()));
    assert_eq!(value_of(&creds, "key-prefix"), Some(format!("instances:{i}:")));
}

#[test]
fn invalid_scope_is_refused() {
    let mut r = router();
    let i = r.provision(&random(12), "valkey", None, None).unwrap();
    let res = r.bind(&random(13), &i, Some(strings(&["read", "admin"])), "pw", ISSUED);
    assert!(matches!(res, Err(BrokerError::InvalidScope(_))));
    assert_eq!(r.keyvalue.list_bindings(&i), Ok(vec![]));
}

#[test]
fn keyvalue_destroy_removes_bindings_and_data() {
    let mut r = router();
    let i = r.provision(&random(14), "valkey", None, None).unwrap();
    let other = r.provision(&random(15), "valkey", None, None).unwrap();
    let b1 = r.bind(&random(16), &i, None, "one", ISSUED).unwrap();
    let b2 = r.bind(&random(17), &i, Some(strings(&["read"])), "two", ISSUED).unwrap();
    let prefix = ValkeyService::instance_data_key_prefix(&i);
    r.keyvalue.server.set(&format!("{prefix}a"), "1");
    r.keyvalue.server.set(&format!("{prefix}b"), "2");
    r.keyvalue.server.hset(&format!("{prefix}h"), "f", "3");
    let kept = format!("{}x", ValkeyService::instance_data_key_prefix(&other));
    r.keyvalue.server.set(&kept, "4");
    assert_eq!(r.keyvalue.list_bindings(&i).unwrap().len(), 2);
    let ob = r.bind(&random(37), &other, None, "pw", ISSUED).unwrap();

    r.destroy(&i, Some(false)).unwrap();

    assert_eq!(r.keyvalue.server.keys_with_prefix(&prefix), Vec::<String>::new());
    assert_eq!(r.keyvalue.list_bindings(&i), Ok(vec![]));
    assert!(r.keyvalue.server.acl_getuser(&b1).is_none());
    assert!(r.keyvalue.server.acl_getuser(&b2).is_none());
    assert!(r.store.fetch(&b1).is_empty());
    assert!(r.store.fetch(&i).is_empty());
    assert_eq!(r.keyvalue.server.keys_with_prefix(&kept), vec![kept.clone()]);
    assert_eq!(r.keyvalue.list_bindings(&other), Ok(vec![ob.clone()]));
    assert!(r.keyvalue.server.acl_getuser(&ob).is_some());
    assert_eq!(r.keyvalue.server.get_as(&ob, "pw", &kept), Ok(Some("4".to_string())));
    assert!(matches!(r.list_bindings(&i), Err(BrokerError::UnknownInstance(_))));
}

#[test]
fn keyvalue_destroy_with_retain_keeps_data() {
    let mut r = router();
    let i = r.provision(&random(18), "valkey", None, None).unwrap();
    let prefix = ValkeyService::instance_data_key_prefix(&i);
    r.keyvalue.server.set(&format!("{prefix}a"), "1");
    let b = r.bind(&random(36), &i, None, "pw", ISSUED).unwrap();
    r.destroy(&i, Some(true)).unwrap();
    assert_eq!(r.keyvalue.server.keys_with_prefix(&prefix), vec![format!("{prefix}a")]);
    assert!(r.keyvalue.server.acl_getuser(&b).is_none());
    assert_eq!(r.keyvalue.list_bindings(&i), Ok(vec![]));
}

#[test]
fn filesystem_destroy_waits_for_unbind() {
    let mut r = router();
    let i = r.provision(&random(19), "filesystem", None, None).unwrap();
    let b = r.bind(&random(20), &i, None, "", ISSUED).unwrap();
    assert!(matches!(r.filesystem.destroy(&i, None), Err(BrokerError::DirectoryNotEmpty(_))));
    r.unbind(&b).unwrap();
    assert_eq!(r.filesystem.destroy(&i, None), Ok(()));
    assert!(r.filesystem.list_bindings(&i).is_err());
}

#[test]
fn router_destroy_with_active_binding_fails() {
    let mut r = router();
    let i = r.provision(&random(21), "filesystem", None, None).unwrap();
    let _b = r.bind(&random(22), &i, None, "", ISSUED).unwrap();
    assert!(matches!(r.destroy(&i, None), Err(BrokerError::DirectoryNotEmpty(_))));
}

#[test]
fn provider_arguments_that_are_not_supported() {
    let mut r = router();
    let res = r.provision(&random(23), "filesystem", Some("large".to_string()), None);
    assert!(matches!(res, Err(BrokerError::Unsupported(_))));
    let req = vec![Request { key: "size".to_string(), value: "1".to_string() }];
    let res = r.provision(&random(23), "valkey", None, Some(req));
    assert!(matches!(res, Err(BrokerError::Unsupported(_))));
    let i = r.provision(&random(24), "filesystem", None, None).unwrap();
    assert_eq!(r.update(&i, None, None), Ok(()));
    assert!(matches!(r.update(&i, Some("t".to_string()), None), Err(BrokerError::Unsupported(_))));
    let res = r.bind(&random(25), &i, Some(strings(&["read"])), "", ISSUED);
    assert!(matches!(res, Err(BrokerError::Unsupported(_))));
}

#[test]
fn unknown_instance_and_binding() {
    let mut r = router();
    let i = service_broker::ids::UuidIds::generate_instance_id(&random(26));
    assert!(matches!(r.update(&i, None, None), Err(BrokerError::UnknownInstance(_))));
    assert!(matches!(r.destroy(&i, None), Err(BrokerError::UnknownInstance(_))));
    assert!(matches!(r.bind(&random(27), &i, None, "", ISSUED), Err(BrokerError::UnknownInstance(_))));
    let b = service_broker::ids::UuidIds::generate_binding_id(&i, &random(28)).unwrap();
    assert!(matches!(r.unbind(&b), Err(BrokerError::UnknownBinding(_))));
}

#[test]
fn out_of_range_issue_time_is_a_backend_error() {
    let mut r = router();
    let i = r.provision(&random(29), "valkey", None, None).unwrap();
    assert!(matches!(r.bind(&random(30), &i, None, "pw", i64::MAX), Err(BrokerError::BackendError(_))));
    assert_eq!(r.keyvalue.list_bindings(&i), Ok(vec![]));
}

#[test]
fn lifecycle_types_by_tag() {
    assert_eq!(Lifecycle::get_lifecycle("filesystem"), Ok(LifecycleType::Filesystem));
    assert_eq!(Lifecycle::get_lifecycle("valkey"), Ok(LifecycleType::Keyvalue));
    assert!(matches!(Lifecycle::get_lifecycle("keyvalue"), Err(BrokerError::UnknownServiceType(_))));
}

#[test]
fn keys_helpers() {
    assert_eq!(ValkeyService::instances_hash_key(), "instances");
    assert_eq!(ValkeyService::instance_bindings_hash_key("x"), "instances:x");
    assert_eq!(ValkeyService::instance_data_key_prefix("x"), "instances:x:");
}

#[test]
fn binding_credentials_are_confined_to_instance_keys() {
    let mut r = router();
    let i = r.provision(&random(31), "valkey", None, None).unwrap();
    let other = r.provision(&random(32), "valkey", None, None).unwrap();
    let b = r.bind(&random(33), &i, None, "pw", ISSUED).unwrap();
    let mine = format!("{}k", ValkeyService::instance_data_key_prefix(&i));
    let theirs = format!("{}k", ValkeyService::instance_data_key_prefix(&other));
    assert_eq!(r.keyvalue.server.set_as(&b, "pw", &mine, "v"), Ok(()));
    assert_eq!(r.keyvalue.server.get_as(&b, "pw", &mine), Ok(Some("v".to_string())));
    assert!(r.keyvalue.server.set_as(&b, "pw", &theirs, "v").is_err());
    assert!(r.keyvalue.server.get_as(&b, "pw", &theirs).is_err());
    assert!(r.keyvalue.server.set_as(&b, "wrong", &mine, "v").is_err());
    assert!(r.keyvalue.server.set_as("nobody", "pw", &mine, "v").is_err());
    r.unbind(&b).unwrap();
    assert!(r.keyvalue.server.set_as(&b, "pw", &mine, "w").is_err());
}

#[test]
fn read_scope_cannot_write() {
    let mut r = router();
    let i = r.provision(&random(34), "valkey", None, None).unwrap();
    let b = r.bind(&random(35), &i, Some(strings(&["read"])), "pw", ISSUED).unwrap();
    let key = format!("{}k", ValkeyService::instance_data_key_prefix(&i));
    assert!(matches!(r.keyvalue.server.set_as(&b, "pw", &key, "v"), Err(BrokerError::BackendError(_))));
    assert_eq!(r.keyvalue.server.get_as(&b, "pw", &key), Ok(None));
}

#[test]
fn generated_password_is_hex_of_random_bits() {
    let mut b = [0u8; 32];
    b[0] = 0xab;
    b[31] = 0x0f;
    let pw = service_broker::backing::KeyValueServer::acl_genpass(&b);
    assert_eq!(pw.len(), 64);
    assert!(pw.starts_with("ab00"));
    assert!(pw.ends_with("000f"));
}
