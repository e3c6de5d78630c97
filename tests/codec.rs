use service_broker::codec::{decode_record, encode_record};
use service_broker::credentials::Credential;
use service_broker::error::BrokerError;

#[test]
fn encode_keeps_last_value_per_key() {
    let creds = vec![
        Credential::new("type", "valkey"),
        Credential::new("a", "1"),
        Credential::new("a", "2"),
    ];
    assert_eq!(encode_record(&creds), br#"{"a":"2","type":"valkey"}"#.to_vec());
    assert_eq!(encode_record(&vec![]), b"{}".to_vec());
}

#[test]
fn decode_reads_object_of_strings() {
    let creds = decode_record(br#"{"type":"filesystem","path":"p"}"#).unwrap();
    let got: Vec<(&str, &str)> = creds.iter().map(|c| (c.key.as_str(), c.value.as_str())).collect();
    assert_eq!(got, vec![("path", "p"), ("type", "filesystem")]);
}

#[test]
fn decode_round_trips_encoded_record() {
    let creds = vec![Credential::new("instance-id", "i"), Credential::new("binding-id", "b")];
    let back = decode_record(&encode_record(&creds)).unwrap();
    assert_eq!(back.len(), 2);
    assert!(back.iter().any(|c| c.key == "instance-id" && c.value == "i"));
    assert!(back.iter().any(|c| c.key == "binding-id" && c.value == "b"));
}

#[test]
fn decode_refuses_other_json() {
    for bytes in [&b""[..], b"[1]", br#"{"a":1}"#, b"not json"] {
        assert!(matches!(decode_record(bytes), Err(BrokerError::BackendError(_))));
    }
}
