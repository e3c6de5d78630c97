use service_broker::error::BrokerError;
use service_broker::ids::UuidIds;

fn counting_bytes() -> [u8; 16] {
    let mut b = [0u8; 16];
    for (i, x) in b.iter_mut().enumerate() {
        *x = i as u8;
    }
    b
}

const INSTANCE: &str = "00010203-0405-4607-8809-000000000000";

#[test]
fn generate_renders_version4_uuid() {
    assert_eq!(UuidIds::generate(&counting_bytes()), "00010203-0405-4607-8809-0a0b0c0d0e0f");
    assert_eq!(UuidIds::generate(&[0xff; 16]), "ffffffff-ffff-4fff-bfff-ffffffffffff");
    assert_eq!(UuidIds::generate(&[0; 16]), "00000000-0000-4000-8000-000000000000");
}

#[test]
fn generated_instance_ids_have_instance_shape() {
    let samples: [[u8; 16]; 4] = [counting_bytes(), [0xff; 16], [0; 16], [0xa5; 16]];
    for random in samples.iter() {
        let id = UuidIds::generate_instance_id(random);
        assert_eq!(id.len(), 36);
        assert!(id.ends_with("-000000000000"));
        assert_eq!(UuidIds::validate_instance_id(&id), Ok(()));
    }
    assert_eq!(UuidIds::generate_instance_id(&counting_bytes()), INSTANCE);
}

#[test]
fn generated_binding_id_keeps_instance_prefix() {
    let b = UuidIds::generate_binding_id(INSTANCE, &[0xff; 16]).unwrap();
    assert_eq!(b, "00010203-0405-4607-8809-ffffffffffff");
    assert_eq!(&b[0..23], &INSTANCE[0..23]);
    assert_eq!(UuidIds::lookup_instance_id(&b), Ok(INSTANCE.to_string()));
    assert!(UuidIds::validate_instance_id(&b).is_err());
    assert_eq!(UuidIds::validate_binding_id(&b), Ok(()));
}

#[test]
fn binding_round_trip_for_several_inputs() {
    let samples: [[u8; 16]; 3] = [counting_bytes(), [0x5a; 16], [1; 16]];
    for r in samples.iter() {
        let i = UuidIds::generate_instance_id(r);
        let b = UuidIds::generate_binding_id(&i, &counting_bytes()).unwrap();
        assert_eq!(UuidIds::lookup_instance_id(&b).unwrap(), i);
        assert!(matches!(UuidIds::validate_instance_id(&b), Err(BrokerError::InvalidFormat(_))));
    }
}

#[test]
fn generate_binding_id_rejects_malformed_instance_ids() {
    let bad = [
        "",
        "00010203-0405-4607-8809-00000000000",
        "00010203-0405-4607-8809-0000000000000",
        "0001020g-0405-4607-8809-000000000000",
        "00010203-0405-4607-8809-000000000001",
        "00010203-0405-4607-8809-0a0b0c0d0e0f",
        "00010203x0405-4607-8809-000000000000",
        "0001020A-0405-4607-8809-000000000000",
    ];
    for id in bad.iter() {
        assert!(
            matches!(UuidIds::generate_binding_id(id, &[7; 16]), Err(BrokerError::InvalidFormat(_))),
            "accepted {id}"
        );
    }
}

#[test]
fn lookup_refuses_instance_ids_as_ambiguous() {
    assert!(matches!(UuidIds::lookup_instance_id(INSTANCE), Err(BrokerError::AmbiguousId(_))));
    assert!(matches!(UuidIds::validate_binding_id(INSTANCE), Err(BrokerError::AmbiguousId(_))));
}

#[test]
fn lookup_refuses_malformed_ids() {
    assert!(matches!(UuidIds::lookup_instance_id("not-a-uuid"), Err(BrokerError::InvalidFormat(_))));
    assert!(matches!(
        UuidIds::lookup_instance_id("00010203-0405-4607-8809-0A0B0C0D0E0F"),
        Err(BrokerError::InvalidFormat(_))
    ));
}

#[test]
fn zero_node_bytes_never_give_an_instance_shaped_binding() {
    let b = UuidIds::generate_binding_id(INSTANCE, &[0; 16]).unwrap();
    assert_eq!(b, "00010203-0405-4607-8809-000000000001");
    assert!(UuidIds::validate_instance_id(&b).is_err());
    assert_eq!(UuidIds::lookup_instance_id(&b), Ok(INSTANCE.to_string()));
    let mut r = [0x33u8; 16];
    for x in r[10..].iter_mut() {
        *x = 0;
    }
    let b = UuidIds::generate_binding_id(INSTANCE, &r).unwrap();
    assert_eq!(&b[24..], "000000000001");
}
