use vstd::prelude::*;
use vstd::string::StrSliceExecFns;
use vstd::string::StringExecFns;

verus! {

/// Backend error code with which the database reports a violated uniqueness
/// constraint, e.g. an already-taken account email.
pub const DUPLICATE_KEY: u32 = 23505;

/// Backend error code with which the database reports a violated reference,
/// e.g. an answer naming a question that does not exist.
pub const FOREIGN_KEY_VIOLATION: u32 = 23503;

/// Why a parameter could not be read as an integer.
#[derive(Clone, Copy, PartialEq, Eq, Debug)]
pub enum IntErrorKind {
    /// The parameter was the empty string.
    Empty,
    /// A character that is not a decimal digit was found.
    InvalidDigit,
    /// The value is too large for the target integer type.
    PosOverflow,
    /// The value is too small for the target integer type.
    NegOverflow,
}

/// A failed attempt to read a parameter as an integer: the raw input and the
/// cause.
#[derive(Debug)]
pub struct ParseFailure {
    pub input: String,
    pub kind: IntErrorKind,
}

/// What the persistence backend reported when an operation failed. This is
/// the one error the taxonomy carries raw: telling a uniqueness violation
/// apart from any other backend failure needs the backend's error code.
#[derive(Clone, Copy, PartialEq, Eq, Debug)]
pub enum DbError {
    /// The backend rejected a statement and gave a numeric error code.
    Database { code: u32 },
    /// A statement that had to return a row returned none.
    RowNotFound,
    /// The connection to the backend was closed or otherwise unusable.
    ConnectionClosed,
}

/// A failure reported by an external collaborator service: the status it
/// answered with and its message.
#[derive(Debug)]
pub struct APILayerError {
    pub status: u16,
    pub message: String,
}

impl Clone for APILayerError {
    fn clone(&self) -> (res: Self)
        ensures
            res.status == self.status,
            res.message@ == self.message@,
    {
        APILayerError { status: self.status, message: self.message.clone() }
    }
}

/// The closed set of failure kinds this library can surface. Every fallible
/// operation of the store and of the ownership gate returns one of these,
/// never a raw backend error.
#[derive(Debug)]
pub enum CustomError {
    /// A request parameter could not be read as a number.
    ParseError(ParseFailure),
    /// A request lacked a required parameter.
    MissingParameters,
    /// A credential check failed: the password does not match.
    WrongPassword,
    /// A session token could not be decoded.
    CannotDecryptToken,
    /// The principal does not own the resource it tried to mutate.
    Unauthorized,
    /// The credential-hashing collaborator failed; carries its message.
    ArgonLibraryError(String),
    /// The persistence backend failed; carries what it reported.
    DatabaseQueryError(DbError),
    /// Preparing the backend schema failed; carries the reported message.
    MigrationError(String),
    /// An external call failed before reaching its service; carries the
    /// client library's message.
    ReqwestAPIError(String),
    /// An external call failed inside the client middleware; carries its
    /// message.
    MiddlewareReqwestAPIError(String),
    /// An external service answered with a client-fault status.
    ClientError(APILayerError),
    /// An external service answered with a server-fault status.
    ServerError(APILayerError),
}

/// The decimal rendering of `n`, most significant digit first.
pub open spec fn dec_str(n: nat) -> Seq<char>
    decreases n,
{
    if n < 10 {
        seq![digit_char(n)]
    } else {
        dec_str(n / 10).push(digit_char(n % 10))
    }
}

/// The character for a single decimal digit.
pub open spec fn digit_char(d: nat) -> char {
    if d == 0 {
        '0'
    } else if d == 1 {
        '1'
    } else if d == 2 {
        '2'
    } else if d == 3 {
        '3'
    } else if d == 4 {
        '4'
    } else if d == 5 {
        '5'
    } else if d == 6 {
        '6'
    } else if d == 7 {
        '7'
    } else if d == 8 {
        '8'
    } else {
        '9'
    }
}

fn digit_str(d: u32) -> (r: &'static str)
    requires
        d < 10,
    ensures
        r@ =~= seq![digit_char(d as nat)],
{
    proof {
        reveal_strlit("0");
        reveal_strlit("1");
        reveal_strlit("2");
        reveal_strlit("3");
        reveal_strlit("4");
        reveal_strlit("5");
        reveal_strlit("6");
        reveal_strlit("7");
        reveal_strlit("8");
        reveal_strlit("9");
    }
    if d == 0 {
        "0"
    } else if d == 1 {
        "1"
    } else if d == 2 {
        "2"
    } else if d == 3 {
        "3"
    } else if d == 4 {
        "4"
    } else if d == 5 {
        "5"
    } else if d == 6 {
        "6"
    } else if d == 7 {
        "7"
    } else if d == 8 {
        "8"
    } else {
        "9"
    }
}

/// Renders a number in decimal.
pub fn u32_to_string(n: u32) -> (r: String)
    ensures
        r@ == dec_str(n as nat),
    decreases n,
{
    let d = n % 10;
    let ds = digit_str(d);
    if n < 10 {
        ds.to_owned()
    } else {
        let prefix = u32_to_string(n / 10);
        let r = prefix.concat(ds);
        proof {
            assert(r@ =~= dec_str((n / 10) as nat).push(digit_char((n % 10) as nat)));
        }
        r
    }
}

/// The message an [`APILayerError`] renders to: its status and its message.
pub open spec fn api_layer_error_message(e: APILayerError) -> Seq<char> {
    "Status: "@ + dec_str(e.status as nat) + ", Message: "@ + e.message@
}

impl APILayerError {
    /// Renders the error for logging.
    pub fn message(&self) -> (r: String)
        ensures
            r@ == api_layer_error_message(*self),
    {
        let r = "Status: "
            .to_owned()
            .concat(u32_to_string(self.status as u32).as_str())
            .concat(", Message: ")
            .concat(self.message.as_str());
        proof {
            assert(r@ =~= api_layer_error_message(*self));
        }
        r
    }
}

/// The phrase describing why an integer parameter failed to parse.
pub open spec fn int_error_phrase(k: IntErrorKind) -> Seq<char> {
    match k {
        IntErrorKind::Empty => "cannot parse integer from empty string"@,
        IntErrorKind::InvalidDigit => "invalid digit found in string"@,
        IntErrorKind::PosOverflow => "number too large to fit in target type"@,
        IntErrorKind::NegOverflow => "number too small to fit in target type"@,
    }
}

fn int_error_phrase_str(k: IntErrorKind) -> (r: &'static str)
    ensures
        r@ == int_error_phrase(k),
{
    match k {
        IntErrorKind::Empty => "cannot parse integer from empty string",
        IntErrorKind::InvalidDigit => "invalid digit found in string",
        IntErrorKind::PosOverflow => "number too large to fit in target type",
        IntErrorKind::NegOverflow => "number too small to fit in target type",
    }
}

/// The phrase each failure kind renders to when it is described as itself
/// (as opposed to the classified, outward-facing message of [`return_error`]).
pub open spec fn custom_error_message(e: CustomError) -> Seq<char> {
    match e {
        CustomError::ParseError(f) => "Cannot parse paramenter: "@ + int_error_phrase(f.kind),
        CustomError::MissingParameters => "Missing paramenter"@,
        CustomError::WrongPassword => "Wrong password"@,
        CustomError::CannotDecryptToken => "Cannot decrypt error"@,
        CustomError::Unauthorized => "No permission to change the underlying resource"@,
        CustomError::ArgonLibraryError(_) => "Cannot verifiy password"@,
        CustomError::DatabaseQueryError(_) => "Cannot update, invalid data."@,
        CustomError::MigrationError(_) => "Cannot migrate data"@,
        CustomError::ReqwestAPIError(m) => "External API error: "@ + m@,
        CustomError::MiddlewareReqwestAPIError(m) => "External API error: "@ + m@,
        CustomError::ClientError(e) => "External Client error: "@ + api_layer_error_message(e),
        CustomError::ServerError(e) => "External Server error: "@ + api_layer_error_message(e),
    }
}

impl CustomError {
    /// Renders the failure kind as a phrase.
    pub fn message(&self) -> (r: String)
        ensures
            r@ == custom_error_message(*self),
    {
        match self {
            CustomError::ParseError(f) => {
                let r = "Cannot parse paramenter: ".to_owned().concat(int_error_phrase_str(f.kind));
                r
            },
            CustomError::MissingParameters => "Missing paramenter".to_owned(),
            CustomError::WrongPassword => "Wrong password".to_owned(),
            CustomError::CannotDecryptToken => "Cannot decrypt error".to_owned(),
            CustomError::Unauthorized => "No permission to change the underlying resource".to_owned(),
            CustomError::ArgonLibraryError(_) => "Cannot verifiy password".to_owned(),
            CustomError::DatabaseQueryError(_) => "Cannot update, invalid data.".to_owned(),
            CustomError::MigrationError(_) => "Cannot migrate data".to_owned(),
            CustomError::ReqwestAPIError(m) => {
                let r = "External API error: ".to_owned().concat(m.as_str());
                r
            },
            CustomError::MiddlewareReqwestAPIError(m) => {
                let r = "External API error: ".to_owned().concat(m.as_str());
                r
            },
            CustomError::ClientError(e) => {
                let r = "External Client error: ".to_owned().concat(e.message().as_str());
                r
            },
            CustomError::ServerError(e) => {
                let r = "External Server error: ".to_owned().concat(e.message().as_str());
                r
            },
        }
    }
}

/// Anything that can arrive at the service boundary after a request failed:
/// a failure kind of this library, a framework-level malformation, or a
/// request that matched no route.
#[derive(Debug)]
pub enum Rejection {
    /// A failure kind surfaced by this library.
    Custom(CustomError),
    /// The framework refused the request's origin; carries its message.
    CorsForbidden(String),
    /// The framework could not read the request body; carries its message.
    BodyDeserialize(String),
    /// No route matched the request.
    RouteNotFound,
}

/// How loudly a classified failure is logged.
#[derive(Clone, Copy, PartialEq, Eq, Debug)]
pub enum Severity {
    Warn,
    Error,
}

/// The externally observable outcome of a failed request: a status code, a
/// user-visible message, and the severity at which to log the failure.
#[derive(Debug)]
pub struct ErrorResponse {
    pub status: u16,
    pub message: String,
    pub severity: Severity,
}

/// The status code each rejection classifies to.
pub open spec fn classified_status(r: Rejection) -> u16 {
    match r {
        Rejection::Custom(e) => match e {
            CustomError::ParseError(_) => 400,
            CustomError::MissingParameters => 400,
            CustomError::WrongPassword => 401,
            CustomError::CannotDecryptToken => 401,
            CustomError::Unauthorized => 401,
            CustomError::ArgonLibraryError(_) => 422,
            CustomError::DatabaseQueryError(_) => 422,
            CustomError::MigrationError(_) => 422,
            CustomError::ReqwestAPIError(_) => 500,
            CustomError::MiddlewareReqwestAPIError(_) => 500,
            CustomError::ClientError(_) => 500,
            CustomError::ServerError(_) => 500,
        },
        Rejection::CorsForbidden(_) => 403,
        Rejection::BodyDeserialize(_) => 422,
        Rejection::RouteNotFound => 404,
    }
}

/// The user-visible message each rejection classifies to. A persistence or
/// external failure renders as a generic phrase: its cause is for the log,
/// never for the caller. The one backend code that is inspected tells a
/// duplicate account apart from any other persistence failure.
pub open spec fn classified_message(r: Rejection) -> Seq<char> {
    match r {
        Rejection::Custom(e) => match e {
            CustomError::ParseError(f) => custom_error_message(CustomError::ParseError(f)),
            CustomError::MissingParameters => "Missing paramenter"@,
            CustomError::WrongPassword => "Wrong E-Mail/Password combination"@,
            CustomError::CannotDecryptToken => "Cannot decrypt error"@,
            CustomError::Unauthorized => "No permission to change underlying resource"@,
            CustomError::ArgonLibraryError(_) => "Cannot verifiy password"@,
            CustomError::DatabaseQueryError(db) => match db {
                DbError::Database { code } => {
                    if code == DUPLICATE_KEY {
                        "Account already exsists"@
                    } else {
                        "Cannot update data"@
                    }
                },
                _ => "Cannot update data"@,
            },
            CustomError::MigrationError(_) => "Cannot migrate data"@,
            CustomError::ReqwestAPIError(_) => "Internal Server Error"@,
            CustomError::MiddlewareReqwestAPIError(_) => "Internal Server Error"@,
            CustomError::ClientError(_) => "Internal Server Error"@,
            CustomError::ServerError(_) => "Internal Server Error"@,
        },
        Rejection::CorsForbidden(m) => m@,
        Rejection::BodyDeserialize(m) => m@,
        Rejection::RouteNotFound => "Route not found"@,
    }
}

/// The severity each rejection is logged at: input faults and unmatched
/// routes are warnings, everything else is an error.
pub open spec fn classified_severity(r: Rejection) -> Severity {
    match r {
        Rejection::Custom(e) => match e {
            CustomError::ParseError(_) => Severity::Warn,
            CustomError::MissingParameters => Severity::Warn,
            _ => Severity::Error,
        },
        Rejection::RouteNotFound => Severity::Warn,
        _ => Severity::Error,
    }
}

/// Classifies a failure that reached the service boundary into the externally
/// observable outcome. This is the sole place that decides what a caller
/// sees; it is pure, so equal rejections always classify to the same triple,
/// as the three clauses below pin down.
pub fn return_error(r: &Rejection) -> (res: ErrorResponse)
    ensures
        res.status == classified_status(*r),
        res.message@ == classified_message(*r),
        res.severity == classified_severity(*r),
{
    match r {
        Rejection::Custom(e) => match e {
            CustomError::ParseError(_) => ErrorResponse {
                status: 400,
                message: e.message(),
                severity: Severity::Warn,
            },
            CustomError::MissingParameters => ErrorResponse {
                status: 400,
                message: "Missing paramenter".to_owned(),
                severity: Severity::Warn,
            },
            CustomError::WrongPassword => ErrorResponse {
                status: 401,
                message: "Wrong E-Mail/Password combination".to_owned(),
                severity: Severity::Error,
            },
            CustomError::CannotDecryptToken => ErrorResponse {
                status: 401,
                message: "Cannot decrypt error".to_owned(),
                severity: Severity::Error,
            },
            CustomError::Unauthorized => ErrorResponse {
                status: 401,
                message: "No permission to change underlying resource".to_owned(),
                severity: Severity::Error,
            },
            CustomError::ArgonLibraryError(_) => ErrorResponse {
                status: 422,
                message: "Cannot verifiy password".to_owned(),
                severity: Severity::Error,
            },
            CustomError::DatabaseQueryError(db) => {
                let duplicate = match db {
                    DbError::Database { code } => *code == DUPLICATE_KEY,
                    _ => false,
                };
                ErrorResponse {
                    status: 422,
                    message: if duplicate {
                        "Account already exsists".to_owned()
                    } else {
                        "Cannot update data".to_owned()
                    },
                    severity: Severity::Error,
                }
            },
            CustomError::MigrationError(_) => ErrorResponse {
                status: 422,
                message: "Cannot migrate data".to_owned(),
                severity: Severity::Error,
            },
            CustomError::ReqwestAPIError(_) => ErrorResponse {
                status: 500,
                message: "Internal Server Error".to_owned(),
                severity: Severity::Error,
            },
            CustomError::MiddlewareReqwestAPIError(_) => ErrorResponse {
                status: 500,
                message: "Internal Server Error".to_owned(),
                severity: Severity::Error,
            },
            CustomError::ClientError(_) => ErrorResponse {
                status: 500,
                message: "Internal Server Error".to_owned(),
                severity: Severity::Error,
            },
            CustomError::ServerError(_) => ErrorResponse {
                status: 500,
                message: "Internal Server Error".to_owned(),
                severity: Severity::Error,
            },
        },
        Rejection::CorsForbidden(m) => ErrorResponse {
            status: 403,
            message: m.clone(),
            severity: Severity::Error,
        },
        Rejection::BodyDeserialize(m) => ErrorResponse {
            status: 422,
            message: m.clone(),
            severity: Severity::Error,
        },
        Rejection::RouteNotFound => ErrorResponse {
            status: 404,
            message: "Route not found".to_owned(),
            severity: Severity::Warn,
        },
    }
}

} // verus!
