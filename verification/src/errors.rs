//! Classification of HTTP responses: success, domain error, or a reply
//! this client does not understand.
//!
//! A response whose status matches the operation's expected code is a
//! success, and its body is decoded into the operation's result shape
//! (the three operations without a result ignore the body). On any
//! other status the body is read as the service's error envelope: if it
//! decodes, the failure carries the status and the envelope verbatim;
//! if it does not, the failure is a decode error that still carries the
//! status.

use vstd::prelude::*;

use crate::json::{spec_parse, JsonVal};
use crate::objects::{
    spec_decode_authenticate, spec_decode_error, spec_decode_refresh, AuthenticateV, Error, ErrorV,
    RefreshV,
};
use crate::requests::{Authenticate, Invalidate, Refresh, Signout, Validate};
use vstd::utf8::encode_utf8;

verus! {

/// Why a call failed.
#[derive(Debug, Clone, PartialEq, Eq)]
pub enum ApiError {
    /// The service rejected the request: the response status and the
    /// decoded error envelope.
    Domain { status: u32, error: Error },
    /// The response body matched neither the expected result shape nor
    /// the error envelope; the status is kept for diagnostics.
    Decode { status: u32 },
    /// The exchange failed below the HTTP layer (network, name
    /// resolution, TLS, timeout). Never produced here: the transport
    /// that performs the exchange reports it through this variant.
    Transport { detail: String },
}

/// The view of `ApiError`, over raw bytes.
pub enum ApiErrorV {
    Domain { status: u32, error: ErrorV },
    Decode { status: u32 },
    Transport { detail: Seq<u8> },
}

impl View for ApiError {
    type V = ApiErrorV;

    open spec fn view(&self) -> ApiErrorV {
        match self {
            ApiError::Domain { status, error } => ApiErrorV::Domain {
                status: *status,
                error: error@,
            },
            ApiError::Decode { status } => ApiErrorV::Decode { status: *status },
            ApiError::Transport { detail } => ApiErrorV::Transport {
                detail: encode_utf8(detail@),
            },
        }
    }
}

/// What a failing response classifies to: a domain error when the body
/// is the service's envelope, else a decode error, both keeping the
/// status.
pub open spec fn spec_classify_failure(status: u32, body: Seq<u8>) -> ApiErrorV {
    match spec_parse(body) {
        Some(v) => match spec_decode_error(v) {
            Some(e) => ApiErrorV::Domain { status, error: e },
            None => ApiErrorV::Decode { status },
        },
        None => ApiErrorV::Decode { status },
    }
}

/// Classify a response that did not carry the expected status.
pub fn classify_failure(status: u32, body: &[u8]) -> (e: ApiError)
    ensures
        e@ == spec_classify_failure(status, body@),
{
    match crate::json::parse(body) {
        Some(j) => match crate::objects::decode_error(&j) {
            Some(err) => ApiError::Domain { status, error: err },
            None => ApiError::Decode { status },
        },
        None => ApiError::Decode { status },
    }
}

/// A response with an unexpected status whose body decodes as the
/// error envelope always classifies to a domain error carrying that
/// exact status and the decoded envelope.
pub proof fn lemma_classify_domain(status: u32, body: Seq<u8>, v: JsonVal, e: ErrorV)
    requires
        spec_parse(body) == Some(v),
        spec_decode_error(v) == Some(e),
    ensures
        spec_classify_failure(status, body) == (ApiErrorV::Domain { status, error: e }),
{
}

/// A response whose body neither parses as JSON nor decodes as the
/// envelope classifies to a decode error, never a domain error, and
/// still carries the status.
pub proof fn lemma_classify_undecodable(status: u32, body: Seq<u8>)
    requires
        spec_parse(body) is None || spec_decode_error(spec_parse(body)->Some_0) is None,
    ensures
        spec_classify_failure(status, body) == (ApiErrorV::Decode { status }),
{
}

/// A 200 response whose body matches the authenticate result shape is
/// a success with exactly the decoded result; likewise for refresh.
pub proof fn lemma_expected_status_succeeds(status: u32, body: Seq<u8>, v: JsonVal)
    requires
        status == 200,
        spec_parse(body) == Some(v),
    ensures
        spec_decode_authenticate(v) matches Some(a) ==> spec_process_authenticate(status, body)
            == Ok::<AuthenticateV, ApiErrorV>(a),
        spec_decode_refresh(v) matches Some(a) ==> spec_process_refresh(status, body) == Ok::<
            RefreshV,
            ApiErrorV,
        >(a),
{
}

/// A response with any status other than the operation's expected one
/// is always a failure, whatever its body holds.
pub proof fn lemma_unexpected_status_fails(status: u32, body: Seq<u8>)
    ensures
        status != 200 ==> spec_process_authenticate(status, body) is Err,
        status != 200 ==> spec_process_refresh(status, body) is Err,
        status != 204 ==> spec_process_empty(status, body) is Err,
{
}

/// A 204 response is a success for the three operations without a
/// payload, whatever its body holds.
pub proof fn lemma_empty_status_succeeds(status: u32, body: Seq<u8>)
    requires
        status == 204,
    ensures
        spec_process_empty(status, body) == Ok::<(), ApiErrorV>(()),
{
}

/// The outcome of an authenticate exchange, given the response.
pub open spec fn spec_process_authenticate(status: u32, body: Seq<u8>) -> Result<
    AuthenticateV,
    ApiErrorV,
> {
    if status == 200 {
        match spec_parse(body) {
            Some(v) => match spec_decode_authenticate(v) {
                Some(a) => Ok(a),
                None => Err(ApiErrorV::Decode { status }),
            },
            None => Err(ApiErrorV::Decode { status }),
        }
    } else {
        Err(spec_classify_failure(status, body))
    }
}

/// The outcome of a refresh exchange, given the response.
pub open spec fn spec_process_refresh(status: u32, body: Seq<u8>) -> Result<RefreshV, ApiErrorV> {
    if status == 200 {
        match spec_parse(body) {
            Some(v) => match spec_decode_refresh(v) {
                Some(a) => Ok(a),
                None => Err(ApiErrorV::Decode { status }),
            },
            None => Err(ApiErrorV::Decode { status }),
        }
    } else {
        Err(spec_classify_failure(status, body))
    }
}

/// The outcome of an exchange whose operation returns no payload: any
/// response with the expected 204 status succeeds, whatever its body.
pub open spec fn spec_process_empty(status: u32, body: Seq<u8>) -> Result<(), ApiErrorV> {
    if status == 204 {
        Ok(())
    } else {
        Err(spec_classify_failure(status, body))
    }
}

fn process_empty(status: u32, body: &[u8]) -> (r: Result<(), ApiError>)
    ensures
        match spec_process_empty(status, body@) {
            Ok(u) => r is Ok,
            Err(e) => r matches Err(re) && re@ == e,
        },
{
    if status == 204 {
        Ok(())
    } else {
        Err(classify_failure(status, body))
    }
}

impl<'a> Authenticate<'a> {
    /// Turn the raw response of an authenticate exchange into its
    /// typed outcome; the expected success status is 200.
    pub fn process_response(status: u32, body: &[u8]) -> (r: Result<
        crate::objects::Authenticate,
        ApiError,
    >)
        ensures
            match spec_process_authenticate(status, body@) {
                Ok(a) => r matches Ok(ra) && ra@ == a,
                Err(e) => r matches Err(re) && re@ == e,
            },
    {
        if status == 200 {
            match crate::json::parse(body) {
                Some(j) => match crate::objects::decode_authenticate(&j) {
                    Some(a) => Ok(a),
                    None => Err(ApiError::Decode { status }),
                },
                None => Err(ApiError::Decode { status }),
            }
        } else {
            Err(classify_failure(status, body))
        }
    }
}

impl Refresh {
    /// Turn the raw response of a refresh exchange into its typed
    /// outcome; the expected success status is 200.
    pub fn process_response(status: u32, body: &[u8]) -> (r: Result<
        crate::objects::Refresh,
        ApiError,
    >)
        ensures
            match spec_process_refresh(status, body@) {
                Ok(a) => r matches Ok(ra) && ra@ == a,
                Err(e) => r matches Err(re) && re@ == e,
            },
    {
        if status == 200 {
            match crate::json::parse(body) {
                Some(j) => match crate::objects::decode_refresh(&j) {
                    Some(a) => Ok(a),
                    None => Err(ApiError::Decode { status }),
                },
                None => Err(ApiError::Decode { status }),
            }
        } else {
            Err(classify_failure(status, body))
        }
    }
}

impl Validate {
    /// Turn the raw response of a validate exchange into its outcome;
    /// the expected success status is 204 and carries no payload.
    pub fn process_response(status: u32, body: &[u8]) -> (r: Result<(), ApiError>)
        ensures
            match spec_process_empty(status, body@) {
                Ok(u) => r is Ok,
                Err(e) => r matches Err(re) && re@ == e,
            },
    {
        process_empty(status, body)
    }
}

impl Signout {
    /// Turn the raw response of a signout exchange into its outcome;
    /// the expected success status is 204 and carries no payload.
    pub fn process_response(status: u32, body: &[u8]) -> (r: Result<(), ApiError>)
        ensures
            match spec_process_empty(status, body@) {
                Ok(u) => r is Ok,
                Err(e) => r matches Err(re) && re@ == e,
            },
    {
        process_empty(status, body)
    }
}

impl Invalidate {
    /// Turn the raw response of an invalidate exchange into its
    /// outcome; the expected success status is 204 and carries no
    /// payload.
    pub fn process_response(status: u32, body: &[u8]) -> (r: Result<(), ApiError>)
        ensures
            match spec_process_empty(status, body@) {
                Ok(u) => r is Ok,
                Err(e) => r matches Err(re) && re@ == e,
            },
    {
        process_empty(status, body)
    }
}

} // verus!
