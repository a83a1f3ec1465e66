//! Protocol enumerations: request methods, the status code table, and
//! the body transfer framings.

use vstd::prelude::*;

verus! {

/// The supported request methods.
#[derive(Clone, Copy, Debug, PartialEq, Eq, Structural)]
pub enum HttpMethods {
    Get,
    Post,
}

impl HttpMethods {
    /// The wire name of the method.
    pub open spec fn spec_name(self) -> Seq<char> {
        match self {
            HttpMethods::Get => "GET"@,
            HttpMethods::Post => "POST"@,
        }
    }

    /// Returns the wire name of the method, as written on the request line.
    pub fn name(&self) -> (r: String)
        ensures
            r@ == self.spec_name(),
    {
        match self {
            HttpMethods::Get => "GET".to_owned(),
            HttpMethods::Post => "POST".to_owned(),
        }
    }
}

/// How the body of a response is framed on the wire.
#[derive(Clone, Copy, Debug, PartialEq, Eq, Structural)]
pub enum TransferEncoding {
    /// The body is the raw bytes, taken verbatim.
    Normal,
    /// The body arrives as hex-size-prefixed chunks, ending with a
    /// zero-sized chunk.
    Chunked,
}

/// The closed enumeration of known response status codes.  A numeric
/// code outside the table is represented by `Undefined`, never by an
/// error.
#[derive(Clone, Copy, Debug, PartialEq, Eq, Structural)]
pub enum ResponseCode {
    // Testing
    Undefined,
    // Informational
    Continue,
    SwitchingProtocols,
    Processing,
    // Success
    Okay,
    Created,
    Accepted,
    NonAuthoritativeInformation,
    NoContent,
    ResetContent,
    PartialContent,
    MultiStatus,
    AlreadyReported,
    ImUsed,
    // Redirection
    MultipleChoices,
    MovedPermanently,
    Found,
    SeeOther,
    NotModified,
    UseProxy,
    SwitchProxy,
    TemporaryRedirect,
    PermanentRedirect,
    // Client Error
    BadRequest,
    Unauthorized,
    PaymentRequired,
    Forbidden,
    NotFound,
    MethodNotAllowed,
    NotAcceptable,
    ProxyAuthenticationRequired,
    RequestTimeout,
    Conflict,
    Gone,
    LengthRequired,
    PreconditionFailed,
    PayloadTooLarge,
    UriTooLong,
    UnsupportedMediaType,
    RangeNotSatisified,
    ExpectationFailed,
    ImATeapot,
    MisdirectedRequest,
    UnprocessableEntitiy,
    Locked,
    FailedDependency,
    UpgradeRequired,
    PreconditionRequired,
    TooManyRequests,
    RequestHeaderFieldsTooLarge,
    UnavailableForLegalReasons,
    // Server Error
    InternalServerError,
    NotImplemented,
    BadGateway,
    ServiceUnavailable,
    GatewayTimeout,
    HttpVersionNotSupported,
    VariantAlsoNegotiates,
    InsufficientStorage,
    LoopDetected,
    NotExtended,
    NetworkAuthenticationRequired,
}

impl ResponseCode {
    /// The status code that a numeric value denotes; values outside the
    /// table denote `Undefined`.
    pub open spec fn spec_from_int(i: u32) -> ResponseCode {
        match i {
            // Testing
            0u32 => ResponseCode::Undefined,
            // Informational
            100u32 => ResponseCode::Continue,
            101u32 => ResponseCode::SwitchingProtocols,
            102u32 => ResponseCode::Processing,
            // Success
            200u32 => ResponseCode::Okay,
            201u32 => ResponseCode::Created,
            202u32 => ResponseCode::Accepted,
            203u32 => ResponseCode::NonAuthoritativeInformation,
            204u32 => ResponseCode::NoContent,
            205u32 => ResponseCode::ResetContent,
            206u32 => ResponseCode::PartialContent,
            207u32 => ResponseCode::MultiStatus,
            208u32 => ResponseCode::AlreadyReported,
            226u32 => ResponseCode::ImUsed,
            // Redirection
            300u32 => ResponseCode::MultipleChoices,
            301u32 => ResponseCode::MovedPermanently,
            302u32 => ResponseCode::Found,
            303u32 => ResponseCode::SeeOther,
            304u32 => ResponseCode::NotModified,
            305u32 => ResponseCode::UseProxy,
            306u32 => ResponseCode::SwitchProxy,
            307u32 => ResponseCode::TemporaryRedirect,
            308u32 => ResponseCode::PermanentRedirect,
            // Client Error
            400u32 => ResponseCode::BadRequest,
            401u32 => ResponseCode::Unauthorized,
            402u32 => ResponseCode::PaymentRequired,
            403u32 => ResponseCode::Forbidden,
            404u32 => ResponseCode::NotFound,
            405u32 => ResponseCode::MethodNotAllowed,
            406u32 => ResponseCode::NotAcceptable,
            407u32 => ResponseCode::ProxyAuthenticationRequired,
            408u32 => ResponseCode::RequestTimeout,
            409u32 => ResponseCode::Conflict,
            410u32 => ResponseCode::Gone,
            411u32 => ResponseCode::LengthRequired,
            412u32 => ResponseCode::PreconditionFailed,
            413u32 => ResponseCode::PayloadTooLarge,
            414u32 => ResponseCode::UriTooLong,
            415u32 => ResponseCode::UnsupportedMediaType,
            416u32 => ResponseCode::RangeNotSatisified,
            417u32 => ResponseCode::ExpectationFailed,
            418u32 => ResponseCode::ImATeapot,
            421u32 => ResponseCode::MisdirectedRequest,
            422u32 => ResponseCode::UnprocessableEntitiy,
            423u32 => ResponseCode::Locked,
            424u32 => ResponseCode::FailedDependency,
            426u32 => ResponseCode::UpgradeRequired,
            428u32 => ResponseCode::PreconditionRequired,
            429u32 => ResponseCode::TooManyRequests,
            431u32 => ResponseCode::RequestHeaderFieldsTooLarge,
            451u32 => ResponseCode::UnavailableForLegalReasons,
            // Server Error
            500u32 => ResponseCode::InternalServerError,
            501u32 => ResponseCode::NotImplemented,
            502u32 => ResponseCode::BadGateway,
            503u32 => ResponseCode::ServiceUnavailable,
            504u32 => ResponseCode::GatewayTimeout,
            505u32 => ResponseCode::HttpVersionNotSupported,
            506u32 => ResponseCode::VariantAlsoNegotiates,
            507u32 => ResponseCode::InsufficientStorage,
            508u32 => ResponseCode::LoopDetected,
            510u32 => ResponseCode::NotExtended,
            511u32 => ResponseCode::NetworkAuthenticationRequired,
            _ => ResponseCode::Undefined,
        }
    }

    /// Maps a numeric status code to the enumeration; unknown codes map
    /// to `Undefined`.
    pub fn from_int(i: u32) -> (r: ResponseCode)
        ensures
            r == Self::spec_from_int(i),
    {
        match i {
            // Testing
            0u32 => ResponseCode::Undefined,
            // Informational
            100u32 => ResponseCode::Continue,
            101u32 => ResponseCode::SwitchingProtocols,
            102u32 => ResponseCode::Processing,
            // Success
            200u32 => ResponseCode::Okay,
            201u32 => ResponseCode::Created,
            202u32 => ResponseCode::Accepted,
            203u32 => ResponseCode::NonAuthoritativeInformation,
            204u32 => ResponseCode::NoContent,
            205u32 => ResponseCode::ResetContent,
            206u32 => ResponseCode::PartialContent,
            207u32 => ResponseCode::MultiStatus,
            208u32 => ResponseCode::AlreadyReported,
            226u32 => ResponseCode::ImUsed,
            // Redirection
            300u32 => ResponseCode::MultipleChoices,
            301u32 => ResponseCode::MovedPermanently,
            302u32 => ResponseCode::Found,
            303u32 => ResponseCode::SeeOther,
            304u32 => ResponseCode::NotModified,
            305u32 => ResponseCode::UseProxy,
            306u32 => ResponseCode::SwitchProxy,
            307u32 => ResponseCode::TemporaryRedirect,
            308u32 => ResponseCode::PermanentRedirect,
            // Client Error
            400u32 => ResponseCode::BadRequest,
            401u32 => ResponseCode::Unauthorized,
            402u32 => ResponseCode::PaymentRequired,
            403u32 => ResponseCode::Forbidden,
            404u32 => ResponseCode::NotFound,
            405u32 => ResponseCode::MethodNotAllowed,
            406u32 => ResponseCode::NotAcceptable,
            407u32 => ResponseCode::ProxyAuthenticationRequired,
            408u32 => ResponseCode::RequestTimeout,
            409u32 => ResponseCode::Conflict,
            410u32 => ResponseCode::Gone,
            411u32 => ResponseCode::LengthRequired,
            412u32 => ResponseCode::PreconditionFailed,
            413u32 => ResponseCode::PayloadTooLarge,
            414u32 => ResponseCode::UriTooLong,
            415u32 => ResponseCode::UnsupportedMediaType,
            416u32 => ResponseCode::RangeNotSatisified,
            417u32 => ResponseCode::ExpectationFailed,
            418u32 => ResponseCode::ImATeapot,
            421u32 => ResponseCode::MisdirectedRequest,
            422u32 => ResponseCode::UnprocessableEntitiy,
            423u32 => ResponseCode::Locked,
            424u32 => ResponseCode::FailedDependency,
            426u32 => ResponseCode::UpgradeRequired,
            428u32 => ResponseCode::PreconditionRequired,
            429u32 => ResponseCode::TooManyRequests,
            431u32 => ResponseCode::RequestHeaderFieldsTooLarge,
            451u32 => ResponseCode::UnavailableForLegalReasons,
            // Server Error
            500u32 => ResponseCode::InternalServerError,
            501u32 => ResponseCode::NotImplemented,
            502u32 => ResponseCode::BadGateway,
            503u32 => ResponseCode::ServiceUnavailable,
            504u32 => ResponseCode::GatewayTimeout,
            505u32 => ResponseCode::HttpVersionNotSupported,
            506u32 => ResponseCode::VariantAlsoNegotiates,
            507u32 => ResponseCode::InsufficientStorage,
            508u32 => ResponseCode::LoopDetected,
            510u32 => ResponseCode::NotExtended,
            511u32 => ResponseCode::NetworkAuthenticationRequired,
            _ => ResponseCode::Undefined,
        }
    }

    /// The display name of the status code: its variant name in capitals.
    pub open spec fn spec_name(self) -> Seq<char> {
        match self {
            ResponseCode::Undefined => "UNDEFINED"@,
            ResponseCode::Continue => "CONTINUE"@,
            ResponseCode::SwitchingProtocols => "SWITCHINGPROTOCOLS"@,
            ResponseCode::Processing => "PROCESSING"@,
            ResponseCode::Okay => "OK"@,
            ResponseCode::Created => "CREATED"@,
            ResponseCode::Accepted => "ACCEPTED"@,
            ResponseCode::NonAuthoritativeInformation => "NONAUTHORITATIVEINFORMATION"@,
            ResponseCode::NoContent => "NOCONTENT"@,
            ResponseCode::ResetContent => "RESETCONTENT"@,
            ResponseCode::PartialContent => "PARTIALCONTENT"@,
            ResponseCode::MultiStatus => "MULTISTATUS"@,
            ResponseCode::AlreadyReported => "ALREADYREPORTED"@,
            ResponseCode::ImUsed => "IMUSED"@,
            ResponseCode::MultipleChoices => "MULTIPLECHOICES"@,
            ResponseCode::MovedPermanently => "MOVEDPERMANENTLY"@,
            ResponseCode::Found => "FOUND"@,
            ResponseCode::SeeOther => "SEEOTHER"@,
            ResponseCode::NotModified => "NOTMODIFIED"@,
            ResponseCode::UseProxy => "USEPROXY"@,
            ResponseCode::SwitchProxy => "SWITCHPROXY"@,
            ResponseCode::TemporaryRedirect => "TEMPORARYREDIRECT"@,
            ResponseCode::PermanentRedirect => "PERMANENTREDIRECT"@,
            ResponseCode::BadRequest => "BADREQUEST"@,
            ResponseCode::Unauthorized => "UNAUTHORIZED"@,
            ResponseCode::PaymentRequired => "PAYMENTREQUIRED"@,
            ResponseCode::Forbidden => "FORBIDDEN"@,
            ResponseCode::NotFound => "NOTFOUND"@,
            ResponseCode::MethodNotAllowed => "METHODNOTALLOWED"@,
            ResponseCode::NotAcceptable => "NOTACCEPTABLE"@,
            ResponseCode::ProxyAuthenticationRequired => "PROXYAUTHENTICATIONREQUIRED"@,
            ResponseCode::RequestTimeout => "REQUESTTIMEOUT"@,
            ResponseCode::Conflict => "CONFLICT"@,
            ResponseCode::Gone => "GONE"@,
            ResponseCode::LengthRequired => "LENGTHREQUIRED"@,
            ResponseCode::PreconditionFailed => "PRECONDITIONFAILED"@,
            ResponseCode::PayloadTooLarge => "PAYLOADTOOLARGE"@,
            ResponseCode::UriTooLong => "URITOOLONG"@,
            ResponseCode::UnsupportedMediaType => "UNSUPPORTEDMEDIATYPE"@,
            ResponseCode::RangeNotSatisified => "RANGENOTSATISIFIED"@,
            ResponseCode::ExpectationFailed => "EXPECTATIONFAILED"@,
            ResponseCode::ImATeapot => "IMATEAPOT"@,
            ResponseCode::MisdirectedRequest => "MISDIRECTEDREQUEST"@,
            ResponseCode::UnprocessableEntitiy => "UNPROCESSABLEENTITIY"@,
            ResponseCode::Locked => "LOCKED"@,
            ResponseCode::FailedDependency => "FAILEDDEPENDENCY"@,
            ResponseCode::UpgradeRequired => "UPGRADEREQUIRED"@,
            ResponseCode::PreconditionRequired => "PRECONDITIONREQUIRED"@,
            ResponseCode::TooManyRequests => "TOOMANYREQUESTS"@,
            ResponseCode::RequestHeaderFieldsTooLarge => "REQUESTHEADERFIELDSTOOLARGE"@,
            ResponseCode::UnavailableForLegalReasons => "UNAVAILABLEFORLEGALREASONS"@,
            ResponseCode::InternalServerError => "INTERNALSERVERERROR"@,
            ResponseCode::NotImplemented => "NOTIMPLEMENTED"@,
            ResponseCode::BadGateway => "BADGATEWAY"@,
            ResponseCode::ServiceUnavailable => "SERVICEUNAVAILABLE"@,
            ResponseCode::GatewayTimeout => "GATEWAYTIMEOUT"@,
            ResponseCode::HttpVersionNotSupported => "HTTPVERSIONNOTSUPPORTED"@,
            ResponseCode::VariantAlsoNegotiates => "VARIANTALSONEGOTIATES"@,
            ResponseCode::InsufficientStorage => "INSUFFICIENTSTORAGE"@,
            ResponseCode::LoopDetected => "LOOPDETECTED"@,
            ResponseCode::NotExtended => "NOTEXTENDED"@,
            ResponseCode::NetworkAuthenticationRequired => "NETWORKAUTHENTICATIONREQUIRED"@,
        }
    }

    /// Returns the display name of the status code.
    pub fn name(&self) -> (r: String)
        ensures
            r@ == self.spec_name(),
    {
        match self {
            ResponseCode::Undefined => "UNDEFINED".to_owned(),
            ResponseCode::Continue => "CONTINUE".to_owned(),
            ResponseCode::SwitchingProtocols => "SWITCHINGPROTOCOLS".to_owned(),
            ResponseCode::Processing => "PROCESSING".to_owned(),
            ResponseCode::Okay => "OK".to_owned(),
            ResponseCode::Created => "CREATED".to_owned(),
            ResponseCode::Accepted => "ACCEPTED".to_owned(),
            ResponseCode::NonAuthoritativeInformation => "NONAUTHORITATIVEINFORMATION".to_owned(),
            ResponseCode::NoContent => "NOCONTENT".to_owned(),
            ResponseCode::ResetContent => "RESETCONTENT".to_owned(),
            ResponseCode::PartialContent => "PARTIALCONTENT".to_owned(),
            ResponseCode::MultiStatus => "MULTISTATUS".to_owned(),
            ResponseCode::AlreadyReported => "ALREADYREPORTED".to_owned(),
            ResponseCode::ImUsed => "IMUSED".to_owned(),
            ResponseCode::MultipleChoices => "MULTIPLECHOICES".to_owned(),
            ResponseCode::MovedPermanently => "MOVEDPERMANENTLY".to_owned(),
            ResponseCode::Found => "FOUND".to_owned(),
            ResponseCode::SeeOther => "SEEOTHER".to_owned(),
            ResponseCode::NotModified => "NOTMODIFIED".to_owned(),
            ResponseCode::UseProxy => "USEPROXY".to_owned(),
            ResponseCode::SwitchProxy => "SWITCHPROXY".to_owned(),
            ResponseCode::TemporaryRedirect => "TEMPORARYREDIRECT".to_owned(),
            ResponseCode::PermanentRedirect => "PERMANENTREDIRECT".to_owned(),
            ResponseCode::BadRequest => "BADREQUEST".to_owned(),
            ResponseCode::Unauthorized => "UNAUTHORIZED".to_owned(),
            ResponseCode::PaymentRequired => "PAYMENTREQUIRED".to_owned(),
            ResponseCode::Forbidden => "FORBIDDEN".to_owned(),
            ResponseCode::NotFound => "NOTFOUND".to_owned(),
            ResponseCode::MethodNotAllowed => "METHODNOTALLOWED".to_owned(),
            ResponseCode::NotAcceptable => "NOTACCEPTABLE".to_owned(),
            ResponseCode::ProxyAuthenticationRequired => "PROXYAUTHENTICATIONREQUIRED".to_owned(),
            ResponseCode::RequestTimeout => "REQUESTTIMEOUT".to_owned(),
            ResponseCode::Conflict => "CONFLICT".to_owned(),
            ResponseCode::Gone => "GONE".to_owned(),
            ResponseCode::LengthRequired => "LENGTHREQUIRED".to_owned(),
            ResponseCode::PreconditionFailed => "PRECONDITIONFAILED".to_owned(),
            ResponseCode::PayloadTooLarge => "PAYLOADTOOLARGE".to_owned(),
            ResponseCode::UriTooLong => "URITOOLONG".to_owned(),
            ResponseCode::UnsupportedMediaType => "UNSUPPORTEDMEDIATYPE".to_owned(),
            ResponseCode::RangeNotSatisified => "RANGENOTSATISIFIED".to_owned(),
            ResponseCode::ExpectationFailed => "EXPECTATIONFAILED".to_owned(),
            ResponseCode::ImATeapot => "IMATEAPOT".to_owned(),
            ResponseCode::MisdirectedRequest => "MISDIRECTEDREQUEST".to_owned(),
            ResponseCode::UnprocessableEntitiy => "UNPROCESSABLEENTITIY".to_owned(),
            ResponseCode::Locked => "LOCKED".to_owned(),
            ResponseCode::FailedDependency => "FAILEDDEPENDENCY".to_owned(),
            ResponseCode::UpgradeRequired => "UPGRADEREQUIRED".to_owned(),
            ResponseCode::PreconditionRequired => "PRECONDITIONREQUIRED".to_owned(),
            ResponseCode::TooManyRequests => "TOOMANYREQUESTS".to_owned(),
            ResponseCode::RequestHeaderFieldsTooLarge => "REQUESTHEADERFIELDSTOOLARGE".to_owned(),
            ResponseCode::UnavailableForLegalReasons => "UNAVAILABLEFORLEGALREASONS".to_owned(),
            ResponseCode::InternalServerError => "INTERNALSERVERERROR".to_owned(),
            ResponseCode::NotImplemented => "NOTIMPLEMENTED".to_owned(),
            ResponseCode::BadGateway => "BADGATEWAY".to_owned(),
            ResponseCode::ServiceUnavailable => "SERVICEUNAVAILABLE".to_owned(),
            ResponseCode::GatewayTimeout => "GATEWAYTIMEOUT".to_owned(),
            ResponseCode::HttpVersionNotSupported => "HTTPVERSIONNOTSUPPORTED".to_owned(),
            ResponseCode::VariantAlsoNegotiates => "VARIANTALSONEGOTIATES".to_owned(),
            ResponseCode::InsufficientStorage => "INSUFFICIENTSTORAGE".to_owned(),
            ResponseCode::LoopDetected => "LOOPDETECTED".to_owned(),
            ResponseCode::NotExtended => "NOTEXTENDED".to_owned(),
            ResponseCode::NetworkAuthenticationRequired => "NETWORKAUTHENTICATIONREQUIRED".to_owned(),
        }
    }
}

} // verus!
