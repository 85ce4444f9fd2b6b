use ctap_types::authenticator::Request;
use ctap_types::ctap2::Error as AuthenticatorError;
use ctap_types::ctap2::Request as Ctap2Request;
use ctap_types::serde::Error as SerdeError;
use ctaphid_dispatch::mapping::{large_blobs_fault, parse_cbor, project_error, CtapMappingError};

fn make_credential_body() -> Vec<u8> {
    let mut b = vec![0xA4, 0x01, 0x58, 0x20];
    b.extend_from_slice(&[0x11u8; 32]);
    b.extend_from_slice(&[0x02, 0xA1, 0x62, b'i', b'd', 0x6B]);
    b.extend_from_slice(b"example.com");
    b.extend_from_slice(&[0x03, 0xA1, 0x62, b'i', b'd', 0x44, 0x01, 0x02, 0x03, 0x04]);
    b.extend_from_slice(&[0x04, 0x81, 0xA2, 0x63, b'a', b'l', b'g', 0x26]);
    b.extend_from_slice(&[0x64, b't', b'y', b'p', b'e', 0x6A]);
    b.extend_from_slice(b"public-key");
    b
}

#[test]
fn empty_message_is_unexpected_end() {
    let r = parse_cbor(&[]);
    assert!(matches!(
        r,
        Err(CtapMappingError::ParsingError(SerdeError::DeserializeUnexpectedEnd))
    ));
}

#[test]
fn unknown_opcodes_are_invalid_commands() {
    for op in [0x00u8, 0x03, 0x05, 0x09, 0x0B, 0x0C, 0x0D, 0x20, 0x3F, 0x80, 0xFF] {
        let r = parse_cbor(&[op]);
        assert!(matches!(r, Err(CtapMappingError::InvalidCommand(c)) if c == op), "opcode {}", op);
        assert_eq!(project_error(r.err().unwrap()), AuthenticatorError::InvalidCommand);
    }
}

#[test]
fn parameterless_opcodes_ignore_trailing_bytes() {
    for tail in [vec![], vec![0xFF, 0x00, 0x13], vec![0xA1; 40]] {
        let mut m = vec![0x04];
        m.extend_from_slice(&tail);
        assert!(matches!(parse_cbor(&m), Ok(Request::Ctap2(Ctap2Request::GetInfo))));
        m[0] = 0x07;
        assert!(matches!(parse_cbor(&m), Ok(Request::Ctap2(Ctap2Request::Reset))));
        m[0] = 0x08;
        assert!(matches!(parse_cbor(&m), Ok(Request::Ctap2(Ctap2Request::GetNextAssertion))));
    }
}

#[test]
fn make_credential_decodes_fields() {
    let mut m = vec![0x01];
    m.extend_from_slice(&make_credential_body());
    match parse_cbor(&m) {
        Ok(Request::Ctap2(Ctap2Request::MakeCredential(p))) => {
            assert_eq!(&p.client_data_hash[..], &[0x11u8; 32][..]);
            assert_eq!(p.rp.id.as_str(), "example.com");
            assert_eq!(&p.user.id[..], &[1u8, 2, 3, 4][..]);
            assert_eq!(p.pub_key_cred_params.len(), 1);
            assert_eq!(p.pub_key_cred_params[0].alg, -7);
            assert_eq!(p.pub_key_cred_params[0].key_type.as_str(), "public-key");
            assert!(p.exclude_list.is_none());
            assert!(p.pin_protocol.is_none());
        }
        _ => panic!("expected a makeCredential request"),
    }
}

#[test]
fn make_credential_without_parameters_fails_to_parse() {
    match parse_cbor(&[0x01]) {
        Err(e @ CtapMappingError::ParsingError(_)) => {
            let code = project_error(e);
            assert!(
                code == AuthenticatorError::InvalidCbor || code == AuthenticatorError::MissingParameter
            );
        }
        _ => panic!("expected a parsing error"),
    }
}

#[test]
fn client_pin_missing_field_is_missing_parameter() {
    let r = parse_cbor(&[0x06, 0xA1, 0x01, 0x01]);
    match r {
        Err(e) => {
            assert_eq!(e, CtapMappingError::ParsingError(SerdeError::SerdeMissingField));
            assert_eq!(AuthenticatorError::from(e), AuthenticatorError::MissingParameter);
        }
        Ok(_) => panic!("expected a parsing error"),
    }
}

#[test]
fn large_blobs_missing_field_is_invalid_parameter() {
    let e = large_blobs_fault(SerdeError::SerdeMissingField);
    assert_eq!(e, CtapMappingError::Custom(AuthenticatorError::InvalidParameter));
    assert_eq!(project_error(e), AuthenticatorError::InvalidParameter);
    let e = large_blobs_fault(SerdeError::DeserializeBadMajor);
    assert_eq!(e, CtapMappingError::ParsingError(SerdeError::DeserializeBadMajor));
    assert_eq!(project_error(e), AuthenticatorError::InvalidCbor);
}

#[test]
fn error_projection_table() {
    assert_eq!(project_error(CtapMappingError::InvalidCommand(0x33)), AuthenticatorError::InvalidCommand);
    assert_eq!(
        project_error(CtapMappingError::ParsingError(SerdeError::SerdeMissingField)),
        AuthenticatorError::MissingParameter
    );
    assert_eq!(
        project_error(CtapMappingError::ParsingError(SerdeError::DeserializeUnexpectedEnd)),
        AuthenticatorError::InvalidCbor
    );
    assert_eq!(
        project_error(CtapMappingError::Custom(AuthenticatorError::PinBlocked)),
        AuthenticatorError::PinBlocked
    );
}

#[test]
fn vendor_opcodes_are_forwarded() {
    for op in [0x40u8, 0x42, 0x7F] {
        match parse_cbor(&[op, 0xDE, 0xAD]) {
            Ok(Request::Ctap2(Ctap2Request::Vendor(v))) => assert_eq!(u8::from(v), op),
            _ => panic!("expected a vendor request for {}", op),
        }
    }
}

#[test]
fn vendor_credential_management_alias_decodes_parameters() {
    let direct = parse_cbor(&[0x0A, 0xA1, 0x01, 0x01]);
    let alias = parse_cbor(&[0x41, 0xA1, 0x01, 0x01]);
    assert!(matches!(direct, Ok(Request::Ctap2(Ctap2Request::CredentialManagement(_)))));
    assert_eq!(direct, alias);
    let bad = parse_cbor(&[0x41, 0xFF]);
    assert!(matches!(bad, Err(CtapMappingError::ParsingError(_))));
}
