use uprotocol_uri::error::{CodecError, ErrorKind, SerializationError};
use uprotocol_uri::micro::MicroUriSerializer;
use uprotocol_uri::uri::{AuthorityAddress, UAuthority, UEntity, UResource, UUri, UriValidator};

// version 1, IPv4, resource 0x0102, entity 0x0304, entity version 5, address 10.0.0.1
const MICRO_IPV4: [u8; 12] = [1, 1, 1, 2, 3, 4, 5, 0, 10, 0, 0, 1];

fn micro_uri() -> UUri {
    UUri {
        authority: Some(UAuthority {
            name: None,
            address: Some(AuthorityAddress::Ip(vec![10, 0, 0, 1])),
        }),
        entity: Some(UEntity { name: String::new(), id: Some(0x0304), version_major: Some(5) }),
        resource: Some(UResource {
            name: String::new(),
            instance: None,
            message: None,
            id: Some(0x0102),
        }),
    }
}

#[test]
fn test_build_resolved_passing_empty_long_uri_empty_micro_uri() {
    let uri: Result<UUri, SerializationError> = UUri::build_resolved("", &[]);
    assert!(uri.is_err());
}

#[test]
fn build_resolved_fails_for_empty_long_uri() {
    let error = UUri::build_resolved("", &MICRO_IPV4).unwrap_err();
    assert_eq!(error.kind(), ErrorKind::EmptyLongForm);
    assert_eq!(error.message(), "Long URI is empty");
}

#[test]
fn build_resolved_fails_for_empty_micro_uri() {
    let error = UUri::build_resolved("//vcu.vin/body.access/1/door", &[]).unwrap_err();
    assert_eq!(error.kind(), ErrorKind::EmptyMicroForm);
    assert_eq!(error.message(), "Micro URI is empty");
}

#[test]
fn build_resolved_merges_names_and_numbers() {
    let uri =
        UUri::build_resolved("//vcu.vin/body.access/1/door.front_left#Door", &MICRO_IPV4).unwrap();
    let expected = UUri {
        authority: Some(UAuthority {
            name: Some("vcu.vin".to_string()),
            address: Some(AuthorityAddress::Ip(vec![10, 0, 0, 1])),
        }),
        entity: Some(UEntity {
            name: "body.access".to_string(),
            id: Some(0x0304),
            version_major: Some(5),
        }),
        resource: Some(UResource {
            name: "door".to_string(),
            instance: Some("front_left".to_string()),
            message: Some("Door".to_string()),
            id: Some(0x0102),
        }),
    };
    assert_eq!(uri, expected);
    assert!(UriValidator::is_resolved(&uri));
}

#[test]
fn build_resolved_propagates_parse_errors() {
    let error = UUri::build_resolved("/", &MICRO_IPV4).unwrap_err();
    assert_eq!(error.kind(), ErrorKind::MissingEntityOrResource);
    let error = UUri::build_resolved("/body.access/x/door", &MICRO_IPV4).unwrap_err();
    assert_eq!(error.kind(), ErrorKind::InvalidVersion);
}

#[test]
fn build_resolved_wraps_codec_errors() {
    let error = UUri::build_resolved("//vcu.vin/body.access/1/door", &[1, 1, 0]).unwrap_err();
    assert_eq!(error.kind(), ErrorKind::Codec(CodecError::TooShort));
    assert_eq!(error.message(), "Micro URI is shorter than its header");
    let mut other_version = MICRO_IPV4;
    other_version[0] = 2;
    let error = UUri::build_resolved("//vcu.vin/body.access/1/door", &other_version).unwrap_err();
    assert_eq!(error.kind(), ErrorKind::Codec(CodecError::UnsupportedVersion));
}

#[test]
fn build_resolved_fails_without_resource_in_long_uri() {
    let error = UUri::build_resolved("//vcu.vin/body.access/1", &MICRO_IPV4).unwrap_err();
    assert_eq!(error.kind(), ErrorKind::LongMissingResource);
    assert_eq!(error.message(), "Long URI is missing UResource");
}

#[test]
fn build_resolved_fails_where_authority_has_no_name() {
    // a local long form gives the authority of the micro form no name
    let error = UUri::build_resolved("/body.access/1/door", &MICRO_IPV4).unwrap_err();
    assert_eq!(error.kind(), ErrorKind::UnresolvableAddress);
    assert_eq!(error.message(), "Could not resolve uri ///body.access/5/door");
}

#[test]
fn resolve_fails_without_authority_in_micro_uri() {
    let long = UUri::from_str("//vcu.vin/body.access/1/door").unwrap();
    let mut micro = micro_uri();
    micro.authority = None;
    let error = UUri::resolve(long, micro).unwrap_err();
    assert_eq!(error.kind(), ErrorKind::MicroMissingAuthority);
    assert_eq!(error.message(), "Micro URI is missing UAuthority");
}

#[test]
fn resolve_fails_without_entity_in_micro_uri() {
    let long = UUri::from_str("//vcu.vin/body.access/1/door").unwrap();
    let mut micro = micro_uri();
    micro.entity = None;
    let error = UUri::resolve(long, micro).unwrap_err();
    assert_eq!(error.kind(), ErrorKind::MicroMissingEntity);
    assert_eq!(error.message(), "Micro URI is missing UEntity");
}

#[test]
fn resolve_fails_without_resource_in_long_uri() {
    let long = UUri::from_str("//vcu.vin/body.access/1").unwrap();
    let error = UUri::resolve(long, micro_uri()).unwrap_err();
    assert_eq!(error.kind(), ErrorKind::LongMissingResource);
}

#[test]
fn resolve_keeps_resource_of_long_uri_where_micro_uri_has_none() {
    let mut long = UUri::from_str("//vcu.vin/body.access/1/door").unwrap();
    long.resource.as_mut().unwrap().id = Some(77);
    let mut micro = micro_uri();
    micro.resource = None;
    let uri = UUri::resolve(long, micro).unwrap();
    assert_eq!(uri.resource.unwrap().id, Some(77));
}

#[test]
fn resolve_fails_where_micro_resource_has_no_id() {
    let long = UUri::from_str("//vcu.vin/body.access/1/door").unwrap();
    let mut micro = micro_uri();
    micro.resource.as_mut().unwrap().id = None;
    let error = UUri::resolve(long, micro).unwrap_err();
    assert_eq!(error.kind(), ErrorKind::UnresolvableAddress);
    assert_eq!(error.message(), "Could not resolve uri //vcu.vin/body.access/5/door");
}

#[test]
fn resolve_keeps_name_of_micro_authority_where_long_uri_is_local() {
    let long = UUri::from_str("/body.access/1/door").unwrap();
    let mut micro = micro_uri();
    micro.authority.as_mut().unwrap().name = Some("from.micro".to_string());
    let uri = UUri::resolve(long, micro).unwrap();
    assert_eq!(uri.authority.unwrap().name.as_deref(), Some("from.micro"));
    assert_eq!(uri.entity.unwrap().name, "body.access");
}

#[test]
fn resolved_predicate() {
    assert!(UriValidator::is_resolved(&UUri::default()));
    let long = UUri::from_str("//vcu.vin/body.access/1/door").unwrap();
    assert!(!UriValidator::is_resolved(&long));
    assert!(!UriValidator::is_resolved(&micro_uri()));
    assert!(!UriValidator::is_empty(&long));
    assert!(!UriValidator::is_remote(&UUri::from_str("/body.access").unwrap()));
}

#[test]
fn micro_decode_ipv4() {
    assert_eq!(MicroUriSerializer::deserialize(&MICRO_IPV4), Ok(micro_uri()));
    assert_eq!(UUri::from_micro_bytes(&MICRO_IPV4).unwrap(), micro_uri());
}

#[test]
fn micro_decode_ipv6_and_id() {
    let mut v6 = vec![1u8, 2, 0xFF, 0xFF, 0, 1, 0, 9];
    v6.extend(1u8..=16);
    let uri = MicroUriSerializer::deserialize(&v6).unwrap();
    assert_eq!(
        uri.authority.as_ref().unwrap().address,
        Some(AuthorityAddress::Ip((1u8..=16).collect()))
    );
    assert_eq!(uri.resource.as_ref().unwrap().id, Some(0xFFFF));
    assert_eq!(uri.entity.as_ref().unwrap().id, Some(1));
    assert_eq!(uri.entity.as_ref().unwrap().version_major, Some(0));
    let id = [1u8, 3, 0, 7, 0, 8, 255, 0, 3, b'a', b'b', b'c'];
    let uri = MicroUriSerializer::deserialize(&id).unwrap();
    assert_eq!(
        uri.authority.as_ref().unwrap().address,
        Some(AuthorityAddress::Id(vec![b'a', b'b', b'c']))
    );
    assert_eq!(uri.entity.as_ref().unwrap().version_major, Some(255));
    assert_eq!(MicroUriSerializer::serialize(&uri).unwrap(), id.to_vec());
}

#[test]
fn micro_decode_errors() {
    assert_eq!(MicroUriSerializer::deserialize(&[]), Err(CodecError::TooShort));
    assert_eq!(MicroUriSerializer::deserialize(&[1, 1, 0, 0, 0, 0, 0]), Err(CodecError::TooShort));
    assert_eq!(
        MicroUriSerializer::deserialize(&[0, 1, 0, 0, 0, 0, 0, 0, 1, 2, 3, 4]),
        Err(CodecError::UnsupportedVersion)
    );
    assert_eq!(
        MicroUriSerializer::deserialize(&[1, 0, 0, 0, 0, 0, 0, 0]),
        Err(CodecError::UnknownAddressKind)
    );
    assert_eq!(
        MicroUriSerializer::deserialize(&[1, 4, 0, 0, 0, 0, 0, 0, 1, 2, 3, 4]),
        Err(CodecError::UnknownAddressKind)
    );
    assert_eq!(
        MicroUriSerializer::deserialize(&[1, 1, 0, 0, 0, 0, 0, 0, 1, 2, 3]),
        Err(CodecError::LengthMismatch)
    );
    assert_eq!(
        MicroUriSerializer::deserialize(&[1, 2, 0, 0, 0, 0, 0, 0, 1, 2, 3, 4]),
        Err(CodecError::LengthMismatch)
    );
    assert_eq!(
        MicroUriSerializer::deserialize(&[1, 3, 0, 0, 0, 0, 0, 0, 2, 1]),
        Err(CodecError::LengthMismatch)
    );
    assert_eq!(
        MicroUriSerializer::deserialize(&[1, 3, 0, 0, 0, 0, 0, 0, 0]),
        Err(CodecError::LengthMismatch)
    );
    let error = UUri::from_micro_bytes(&[1, 1, 0, 0, 0, 0, 0, 0]).unwrap_err();
    assert_eq!(error.kind(), ErrorKind::Codec(CodecError::LengthMismatch));
    assert_eq!(error.message(), "Micro URI has the wrong length for its authority address");
}

#[test]
fn micro_encode() {
    assert_eq!(MicroUriSerializer::serialize(&micro_uri()), Ok(MICRO_IPV4.to_vec()));
    assert_eq!(micro_uri().to_micro_bytes().unwrap(), MICRO_IPV4.to_vec());
    let resolved =
        UUri::build_resolved("//vcu.vin/body.access/1/door.front_left#Door", &MICRO_IPV4).unwrap();
    assert_eq!(resolved.to_micro_bytes().unwrap(), MICRO_IPV4.to_vec());
}

#[test]
fn micro_round_trip_ignores_unused_byte() {
    let mut bytes = MICRO_IPV4;
    bytes[7] = 9;
    let uri = MicroUriSerializer::deserialize(&bytes).unwrap();
    assert_eq!(uri, micro_uri());
    assert_eq!(MicroUriSerializer::serialize(&uri).unwrap(), MICRO_IPV4.to_vec());
}

#[test]
fn micro_encode_errors() {
    let long = UUri::from_str("//vcu.vin/body.access/1/door").unwrap();
    assert_eq!(MicroUriSerializer::serialize(&long), Err(CodecError::NotMicroForm));
    let error = long.to_micro_bytes().unwrap_err();
    assert_eq!(error.kind(), ErrorKind::Codec(CodecError::NotMicroForm));
    assert_eq!(error.message(), "URI is not in micro form");
    assert_eq!(MicroUriSerializer::serialize(&UUri::default()), Err(CodecError::NotMicroForm));

    let mut too_large = micro_uri();
    too_large.entity.as_mut().unwrap().id = Some(0x1_0000);
    assert_eq!(MicroUriSerializer::serialize(&too_large), Err(CodecError::NotMicroForm));
    let mut big_version = micro_uri();
    big_version.entity.as_mut().unwrap().version_major = Some(256);
    assert_eq!(MicroUriSerializer::serialize(&big_version), Err(CodecError::NotMicroForm));
    let mut no_version = micro_uri();
    no_version.entity.as_mut().unwrap().version_major = None;
    assert_eq!(MicroUriSerializer::serialize(&no_version), Err(CodecError::NotMicroForm));
    let mut big_resource = micro_uri();
    big_resource.resource.as_mut().unwrap().id = Some(0x1_0000);
    assert_eq!(MicroUriSerializer::serialize(&big_resource), Err(CodecError::NotMicroForm));
    let mut odd_ip = micro_uri();
    odd_ip.authority.as_mut().unwrap().address = Some(AuthorityAddress::Ip(vec![1, 2, 3]));
    assert_eq!(MicroUriSerializer::serialize(&odd_ip), Err(CodecError::NotMicroForm));
    let mut empty_id = micro_uri();
    empty_id.authority.as_mut().unwrap().address = Some(AuthorityAddress::Id(vec![]));
    assert_eq!(MicroUriSerializer::serialize(&empty_id), Err(CodecError::NotMicroForm));
    let mut no_resource = micro_uri();
    no_resource.resource = None;
    assert_eq!(MicroUriSerializer::serialize(&no_resource), Err(CodecError::NotMicroForm));
}
