//! Decoding of a complete CTAP2 message (opcode byte followed by CBOR
//! parameters) into a typed request, and the projection of decoding errors
//! onto authenticator error codes.

use vstd::prelude::*;
use ctap_types::authenticator::Request;
use ctap_types::ctap2::Error as AuthenticatorError;
use ctap_types::ctap2::VendorOperation;
use ctap_types::ctap2::client_pin::Request as ClientPinParameters;
use ctap_types::ctap2::credential_management::Request as CredentialManagementParameters;
use ctap_types::ctap2::get_assertion::Request as GetAssertionParameters;
use ctap_types::ctap2::make_credential::Request as MakeCredentialParameters;
use ctap_types::serde::Error as SerdeError;

verus! {

#[verifier::external_type_specification]
pub struct ExAuthenticatorError(ctap_types::ctap2::Error);

#[verifier::external_type_specification]
pub struct ExSerdeError(ctap_types::serde::Error);

#[verifier::external_type_specification]
pub struct ExRequest(ctap_types::authenticator::Request);

#[verifier::external_type_specification]
pub struct ExCtap2Request(ctap_types::ctap2::Request);

#[verifier::external_type_specification]
#[verifier::external_body]
pub struct ExCtap1Request(ctap_types::ctap1::Request);

#[verifier::external_type_specification]
#[verifier::external_body]
pub struct ExVendorOperation(ctap_types::ctap2::VendorOperation);

#[verifier::external_type_specification]
#[verifier::external_body]
pub struct ExMakeCredentialParameters(ctap_types::ctap2::make_credential::Request);

#[verifier::external_type_specification]
#[verifier::external_body]
pub struct ExGetAssertionParameters(ctap_types::ctap2::get_assertion::Request);

#[verifier::external_type_specification]
#[verifier::external_body]
pub struct ExClientPinParameters(ctap_types::ctap2::client_pin::Request);

#[verifier::external_type_specification]
#[verifier::external_body]
pub struct ExCredentialManagementParameters(ctap_types::ctap2::credential_management::Request);


/// Opcode of authenticatorMakeCredential.
pub const OP_MAKE_CREDENTIAL: u8 = 0x01;
/// Opcode of authenticatorGetAssertion.
pub const OP_GET_ASSERTION: u8 = 0x02;
/// Opcode of authenticatorGetInfo.
pub const OP_GET_INFO: u8 = 0x04;
/// Opcode of authenticatorClientPIN.
pub const OP_CLIENT_PIN: u8 = 0x06;
/// Opcode of authenticatorReset.
pub const OP_RESET: u8 = 0x07;
/// Opcode of authenticatorGetNextAssertion.
pub const OP_GET_NEXT_ASSERTION: u8 = 0x08;
/// Opcode of authenticatorCredentialManagement.
pub const OP_CREDENTIAL_MANAGEMENT: u8 = 0x0A;
/// Opcode of authenticatorLargeBlobs.
pub const OP_LARGE_BLOBS: u8 = 0x0C;
/// First opcode of the vendor range.
pub const OP_VENDOR_FIRST: u8 = 0x40;
/// Last opcode of the vendor range.
pub const OP_VENDOR_LAST: u8 = 0x7F;
/// The vendor opcode that is decoded as credential management.
pub const OP_VENDOR_CREDENTIAL_MANAGEMENT: u8 = 0x41;

/// Why a message could not be turned into a request.
#[derive(Clone, Copy, Debug, PartialEq)]
pub enum CtapMappingError {
    /// The opcode is not one this decoder handles.
    InvalidCommand(u8),
    /// The CBOR parameters could not be decoded.
    ParsingError(SerdeError),
    /// A protocol error code that is passed through as it is.
    Custom(AuthenticatorError),
}

/// The authenticator error code that a mapping error is reported as.
pub open spec fn projected(e: CtapMappingError) -> AuthenticatorError {
    match e {
        CtapMappingError::InvalidCommand(_) => AuthenticatorError::InvalidCommand,
        CtapMappingError::ParsingError(cause) => if cause == SerdeError::SerdeMissingField {
            AuthenticatorError::MissingParameter
        } else {
            AuthenticatorError::InvalidCbor
        },
        CtapMappingError::Custom(code) => code,
    }
}

/// Projects a mapping error onto the error code the authenticator reports.
pub fn project_error(e: CtapMappingError) -> (r: AuthenticatorError)
    ensures
        r == projected(e),
{
    match e {
        CtapMappingError::InvalidCommand(_) => AuthenticatorError::InvalidCommand,
        CtapMappingError::ParsingError(cause) => match cause {
            SerdeError::SerdeMissingField => AuthenticatorError::MissingParameter,
            _ => AuthenticatorError::InvalidCbor,
        },
        CtapMappingError::Custom(code) => code,
    }
}

impl From<CtapMappingError> for AuthenticatorError {
    fn from(mapping_error: CtapMappingError) -> (r: AuthenticatorError) {
        project_error(mapping_error)
    }
}

impl vstd::std_specs::convert::FromSpecImpl<CtapMappingError> for AuthenticatorError {
    open spec fn obeys_from_spec() -> bool {
        true
    }

    open spec fn from_spec(v: CtapMappingError) -> AuthenticatorError {
        projected(v)
    }
}

/// What decoding `body` as makeCredential parameters fails with, if it fails.
pub uninterp spec fn make_credential_fault(body: Seq<u8>) -> Option<SerdeError>;

/// What decoding `body` as getAssertion parameters fails with, if it fails.
pub uninterp spec fn get_assertion_fault(body: Seq<u8>) -> Option<SerdeError>;

/// What decoding `body` as clientPIN parameters fails with, if it fails.
pub uninterp spec fn client_pin_fault(body: Seq<u8>) -> Option<SerdeError>;

/// What decoding `body` as credentialManagement parameters fails with, if it fails.
pub uninterp spec fn credential_management_fault(body: Seq<u8>) -> Option<SerdeError>;

/// Relies on cbor_smol::cbor_deserialize for makeCredential parameters: the
/// outcome is a function of the bytes alone.
#[verifier::external_body]
fn decode_make_credential(body: &[u8]) -> (r: Result<MakeCredentialParameters, SerdeError>)
    ensures
        r is Ok <==> make_credential_fault(body@) is None,
        r is Err ==> make_credential_fault(body@) == Some(r->Err_0),
{
    ctap_types::serde::cbor_deserialize(body)
}

/// Relies on cbor_smol::cbor_deserialize for getAssertion parameters: the
/// outcome is a function of the bytes alone.
#[verifier::external_body]
fn decode_get_assertion(body: &[u8]) -> (r: Result<GetAssertionParameters, SerdeError>)
    ensures
        r is Ok <==> get_assertion_fault(body@) is None,
        r is Err ==> get_assertion_fault(body@) == Some(r->Err_0),
{
    ctap_types::serde::cbor_deserialize(body)
}

/// Relies on cbor_smol::cbor_deserialize for clientPIN parameters: the
/// outcome is a function of the bytes alone.
#[verifier::external_body]
fn decode_client_pin(body: &[u8]) -> (r: Result<ClientPinParameters, SerdeError>)
    ensures
        r is Ok <==> client_pin_fault(body@) is None,
        r is Err ==> client_pin_fault(body@) == Some(r->Err_0),
{
    ctap_types::serde::cbor_deserialize(body)
}

/// Relies on cbor_smol::cbor_deserialize for credentialManagement
/// parameters: the outcome is a function of the bytes alone.
#[verifier::external_body]
fn decode_credential_management(body: &[u8]) -> (r: Result<CredentialManagementParameters, SerdeError>)
    ensures
        r is Ok <==> credential_management_fault(body@) is None,
        r is Err ==> credential_management_fault(body@) == Some(r->Err_0),
{
    ctap_types::serde::cbor_deserialize(body)
}

/// Relies on VendorOperation's `TryFrom<u8>`, which accepts every code of
/// the vendor range 0x40..=0x7f.
#[verifier::external_body]
fn vendor_operation(code: u8) -> (r: VendorOperation)
    requires
        OP_VENDOR_FIRST <= code <= OP_VENDOR_LAST,
{
    VendorOperation::try_from(code).unwrap()
}

/// Whether `r` is the CTAP2 request of the given opcode: the variant that
/// `op` selects, for the opcodes that decode into a request.
pub open spec fn is_request_of(op: u8, r: Request) -> bool {
    match r {
        Request::Ctap1(_) => false,
        Request::Ctap2(req) => match req {
            ctap_types::ctap2::Request::MakeCredential(_) => op == OP_MAKE_CREDENTIAL,
            ctap_types::ctap2::Request::GetAssertion(_) => op == OP_GET_ASSERTION,
            ctap_types::ctap2::Request::GetNextAssertion => op == OP_GET_NEXT_ASSERTION,
            ctap_types::ctap2::Request::GetInfo => op == OP_GET_INFO,
            ctap_types::ctap2::Request::ClientPin(_) => op == OP_CLIENT_PIN,
            ctap_types::ctap2::Request::Reset => op == OP_RESET,
            ctap_types::ctap2::Request::CredentialManagement(_) => op == OP_CREDENTIAL_MANAGEMENT
                || op == OP_VENDOR_CREDENTIAL_MANAGEMENT,
            ctap_types::ctap2::Request::Selection => false,
            ctap_types::ctap2::Request::Vendor(_) => OP_VENDOR_FIRST <= op <= OP_VENDOR_LAST && op
                != OP_VENDOR_CREDENTIAL_MANAGEMENT,
        },
    }
}

/// Opcodes whose request carries no parameters.
pub open spec fn takes_no_parameters(op: u8) -> bool {
    op == OP_GET_INFO || op == OP_RESET || op == OP_GET_NEXT_ASSERTION
}

/// Opcodes forwarded as a vendor request, with the parameters left undecoded.
pub open spec fn is_plain_vendor(op: u8) -> bool {
    OP_VENDOR_FIRST <= op <= OP_VENDOR_LAST && op != OP_VENDOR_CREDENTIAL_MANAGEMENT
}

/// The decoding failure, if any, for an opcode whose request carries CBOR
/// parameters; `None` for the other opcodes.
pub open spec fn parameter_fault(op: u8, body: Seq<u8>) -> Option<SerdeError> {
    if op == OP_MAKE_CREDENTIAL {
        make_credential_fault(body)
    } else if op == OP_GET_ASSERTION {
        get_assertion_fault(body)
    } else if op == OP_CLIENT_PIN {
        client_pin_fault(body)
    } else if op == OP_CREDENTIAL_MANAGEMENT || op == OP_VENDOR_CREDENTIAL_MANAGEMENT {
        credential_management_fault(body)
    } else {
        None
    }
}

/// Opcodes this decoder turns into a request.
pub open spec fn is_handled(op: u8) -> bool {
    op == OP_MAKE_CREDENTIAL || op == OP_GET_ASSERTION || op == OP_CLIENT_PIN || op
        == OP_CREDENTIAL_MANAGEMENT || takes_no_parameters(op) || (OP_VENDOR_FIRST <= op
        <= OP_VENDOR_LAST)
}

/// What `parse_cbor` answers for a message: the opcode is its first byte,
/// the CBOR parameters the rest.
pub open spec fn parsed_as(data: Seq<u8>, r: Result<Request, CtapMappingError>) -> bool {
    if data.len() == 0 {
        r == Err::<Request, CtapMappingError>(
            CtapMappingError::ParsingError(SerdeError::DeserializeUnexpectedEnd),
        )
    } else {
        let op = data[0];
        let body = data.subrange(1, data.len() as int);
        if !is_handled(op) {
            r == Err::<Request, CtapMappingError>(CtapMappingError::InvalidCommand(op))
        } else {
            match parameter_fault(op, body) {
                Some(cause) => r == Err::<Request, CtapMappingError>(
                    CtapMappingError::ParsingError(cause),
                ),
                None => r is Ok && is_request_of(op, r->Ok_0),
            }
        }
    }
}

/// Decodes a complete CTAP2 message: the first byte selects the operation,
/// the remaining bytes hold its CBOR parameters.
pub fn parse_cbor(data: &[u8]) -> (r: Result<Request, CtapMappingError>)
    ensures
        parsed_as(data@, r),
{
    if data.len() < 1 {
        return Err(CtapMappingError::ParsingError(SerdeError::DeserializeUnexpectedEnd));
    }
    let (head, body) = data.split_at(1);
    let op: u8 = head[0];
    assert(body@ =~= data@.subrange(1, data@.len() as int));
    if op == OP_MAKE_CREDENTIAL {
        match decode_make_credential(body) {
            Ok(params) => Ok(Request::Ctap2(ctap_types::ctap2::Request::MakeCredential(params))),
            Err(cause) => Err(CtapMappingError::ParsingError(cause)),
        }
    } else if op == OP_GET_ASSERTION {
        match decode_get_assertion(body) {
            Ok(params) => Ok(Request::Ctap2(ctap_types::ctap2::Request::GetAssertion(params))),
            Err(cause) => Err(CtapMappingError::ParsingError(cause)),
        }
    } else if op == OP_GET_NEXT_ASSERTION {
        Ok(Request::Ctap2(ctap_types::ctap2::Request::GetNextAssertion))
    } else if op == OP_CREDENTIAL_MANAGEMENT || op == OP_VENDOR_CREDENTIAL_MANAGEMENT {
        match decode_credential_management(body) {
            Ok(params) => Ok(
                Request::Ctap2(ctap_types::ctap2::Request::CredentialManagement(params)),
            ),
            Err(cause) => Err(CtapMappingError::ParsingError(cause)),
        }
    } else if op == OP_RESET {
        Ok(Request::Ctap2(ctap_types::ctap2::Request::Reset))
    } else if op == OP_GET_INFO {
        Ok(Request::Ctap2(ctap_types::ctap2::Request::GetInfo))
    } else if op == OP_CLIENT_PIN {
        match decode_client_pin(body) {
            Ok(params) => Ok(Request::Ctap2(ctap_types::ctap2::Request::ClientPin(params))),
            Err(cause) => Err(CtapMappingError::ParsingError(cause)),
        }
    } else if OP_VENDOR_FIRST <= op && op <= OP_VENDOR_LAST {
        Ok(Request::Ctap2(ctap_types::ctap2::Request::Vendor(vendor_operation(op))))
    } else {
        Err(CtapMappingError::InvalidCommand(op))
    }
}

/// The mapping error for a failed decoding of largeBlobs parameters.
pub open spec fn large_blobs_mapped(cause: SerdeError) -> CtapMappingError {
    if cause == SerdeError::SerdeMissingField {
        CtapMappingError::Custom(AuthenticatorError::InvalidParameter)
    } else {
        CtapMappingError::ParsingError(cause)
    }
}

/// The error that a failed decoding of largeBlobs parameters maps to: its
/// only required field is the offset, so a missing field is reported as an
/// invalid parameter; any other cause stays a parsing error.
pub fn large_blobs_fault(cause: SerdeError) -> (r: CtapMappingError)
    ensures
        r == large_blobs_mapped(cause),
{
    match cause {
        SerdeError::SerdeMissingField => CtapMappingError::Custom(AuthenticatorError::InvalidParameter),
        _ => CtapMappingError::ParsingError(cause),
    }
}


/// The outcome of decoding depends on the message alone: whether it
/// succeeds, which request variant it gives, and which error it fails with.
pub proof fn lemma_parse_determined(
    data: Seq<u8>,
    a: Result<Request, CtapMappingError>,
    b: Result<Request, CtapMappingError>,
)
    requires
        parsed_as(data, a),
        parsed_as(data, b),
    ensures
        a is Ok <==> b is Ok,
        a is Err ==> a == b,
        a is Ok ==> data.len() > 0 && is_request_of(data[0], a->Ok_0) && is_request_of(
            data[0],
            b->Ok_0,
        ),
{
}

/// An empty message fails with an unexpected end of input.
pub proof fn lemma_empty_message(data: Seq<u8>, r: Result<Request, CtapMappingError>)
    requires
        data.len() == 0,
        parsed_as(data, r),
    ensures
        r == Err::<Request, CtapMappingError>(
            CtapMappingError::ParsingError(SerdeError::DeserializeUnexpectedEnd),
        ),
{
}

/// A message whose opcode is not handled fails with that opcode as an
/// invalid command, whatever follows it.
pub proof fn lemma_unknown_opcode(data: Seq<u8>, r: Result<Request, CtapMappingError>)
    requires
        data.len() > 0,
        !is_handled(data[0]),
        parsed_as(data, r),
    ensures
        r == Err::<Request, CtapMappingError>(CtapMappingError::InvalidCommand(data[0])),
        projected(r->Err_0) == AuthenticatorError::InvalidCommand,
{
}

/// getInfo, reset and getNextAssertion always decode, and the bytes after
/// the opcode make no difference to the request.
pub proof fn lemma_parameterless_ignores_trailing(
    a: Seq<u8>,
    b: Seq<u8>,
    ra: Result<Request, CtapMappingError>,
    rb: Result<Request, CtapMappingError>,
)
    requires
        a.len() > 0,
        b.len() > 0,
        a[0] == b[0],
        takes_no_parameters(a[0]),
        parsed_as(a, ra),
        parsed_as(b, rb),
    ensures
        ra is Ok,
        is_request_of(a[0], ra->Ok_0),
        ra == rb,
{
}

/// A clientPIN message whose parameters lack a required field is reported
/// as a missing parameter; for largeBlobs the same cause is reported as an
/// invalid parameter.
pub proof fn lemma_missing_field_projection(data: Seq<u8>, r: Result<Request, CtapMappingError>)
    requires
        data.len() > 0,
        data[0] == OP_CLIENT_PIN,
        client_pin_fault(data.subrange(1, data.len() as int)) == Some(SerdeError::SerdeMissingField),
        parsed_as(data, r),
    ensures
        r is Err,
        projected(r->Err_0) == AuthenticatorError::MissingParameter,
        projected(large_blobs_mapped(SerdeError::SerdeMissingField))
            == AuthenticatorError::InvalidParameter,
{
}

/// A makeCredential message fails exactly when its parameters fail to
/// decode, and then projects to a missing parameter or to invalid CBOR.
pub proof fn lemma_make_credential_outcome(data: Seq<u8>, r: Result<Request, CtapMappingError>)
    requires
        data.len() > 0,
        data[0] == OP_MAKE_CREDENTIAL,
        parsed_as(data, r),
    ensures
        r is Ok <==> make_credential_fault(data.subrange(1, data.len() as int)) is None,
        r is Ok ==> r->Ok_0 matches Request::Ctap2(ctap_types::ctap2::Request::MakeCredential(_)),
        r is Err ==> projected(r->Err_0) == AuthenticatorError::MissingParameter || projected(
            r->Err_0,
        ) == AuthenticatorError::InvalidCbor,
{
}

} // verus!
