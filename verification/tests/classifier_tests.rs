use rust_web_dev::errors::{
    APILayerError, CustomError, DbError, IntErrorKind, ParseFailure, Rejection, Severity,
    DUPLICATE_KEY,
};

fn classify(r: Rejection) -> (u16, String, Severity) {
    let res = rust_web_dev::errors::return_error(&r);
    (res.status, res.message, res.severity)
}

#[test]
fn duplicate_key_classifies_as_existing_account() {
    let (status, message, severity) = classify(Rejection::Custom(
        CustomError::DatabaseQueryError(DbError::Database {
            code: DUPLICATE_KEY,
        }),
    ));
    assert_eq!(status, 422);
    assert_eq!(message, "Account already exsists");
    assert_eq!(severity, Severity::Error);
}

#[test]
fn other_database_failures_classify_generically() {
    for db in [
        DbError::Database { code: 12345 },
        DbError::RowNotFound,
        DbError::ConnectionClosed,
    ] {
        let (status, message, severity) =
            classify(Rejection::Custom(CustomError::DatabaseQueryError(db)));
        assert_eq!(status, 422);
        assert_eq!(message, "Cannot update data");
        assert_eq!(severity, Severity::Error);
    }
}

#[test]
fn authorization_failures_classify_as_unauthorized() {
    let (status, message, severity) = classify(Rejection::Custom(CustomError::Unauthorized));
    assert_eq!(status, 401);
    assert_eq!(message, "No permission to change underlying resource");
    assert_eq!(severity, Severity::Error);

    let (status, message, _) = classify(Rejection::Custom(CustomError::WrongPassword));
    assert_eq!(status, 401);
    assert_eq!(message, "Wrong E-Mail/Password combination");

    let (status, _, _) = classify(Rejection::Custom(CustomError::CannotDecryptToken));
    assert_eq!(status, 401);
}

#[test]
fn input_faults_classify_as_warnings() {
    let (status, message, severity) = classify(Rejection::Custom(CustomError::MissingParameters));
    assert_eq!(status, 400);
    assert_eq!(message, "Missing paramenter");
    assert_eq!(severity, Severity::Warn);

    let (status, message, severity) = classify(Rejection::Custom(CustomError::ParseError(
        ParseFailure {
            input: "abc".to_string(),
            kind: IntErrorKind::InvalidDigit,
        },
    )));
    assert_eq!(status, 400);
    assert_eq!(message, "Cannot parse paramenter: invalid digit found in string");
    assert_eq!(severity, Severity::Warn);
}

#[test]
fn external_failures_hide_their_cause() {
    for rejection in [
        Rejection::Custom(CustomError::ReqwestAPIError("socket closed".to_string())),
        Rejection::Custom(CustomError::MiddlewareReqwestAPIError(
            "retries exhausted".to_string(),
        )),
        Rejection::Custom(CustomError::ClientError(APILayerError {
            status: 400,
            message: "bad key".to_string(),
        })),
        Rejection::Custom(CustomError::ServerError(APILayerError {
            status: 503,
            message: "down".to_string(),
        })),
    ] {
        let (status, message, severity) = classify(rejection);
        assert_eq!(status, 500);
        assert_eq!(message, "Internal Server Error");
        assert_eq!(severity, Severity::Error);
    }
}

#[test]
fn framework_rejections_keep_their_message() {
    let (status, message, severity) =
        classify(Rejection::CorsForbidden("origin not allowed".to_string()));
    assert_eq!(status, 403);
    assert_eq!(message, "origin not allowed");
    assert_eq!(severity, Severity::Error);

    let (status, message, _) =
        classify(Rejection::BodyDeserialize("missing field title".to_string()));
    assert_eq!(status, 422);
    assert_eq!(message, "missing field title");

    let (status, message, severity) = classify(Rejection::RouteNotFound);
    assert_eq!(status, 404);
    assert_eq!(message, "Route not found");
    assert_eq!(severity, Severity::Warn);
}

#[test]
fn classifier_is_pure() {
    let make = || {
        Rejection::Custom(CustomError::DatabaseQueryError(DbError::Database {
            code: DUPLICATE_KEY,
        }))
    };
    assert_eq!(classify(make()), classify(make()));
}

#[test]
fn error_phrases_match_their_kind() {
    assert_eq!(
        CustomError::Unauthorized.message(),
        "No permission to change the underlying resource"
    );
    assert_eq!(CustomError::WrongPassword.message(), "Wrong password");
    assert_eq!(
        CustomError::DatabaseQueryError(DbError::RowNotFound).message(),
        "Cannot update, invalid data."
    );
    assert_eq!(
        CustomError::MigrationError("boom".to_string()).message(),
        "Cannot migrate data"
    );
    assert_eq!(
        CustomError::ReqwestAPIError("socket closed".to_string()).message(),
        "External API error: socket closed"
    );
    assert_eq!(
        CustomError::ArgonLibraryError("bad salt".to_string()).message(),
        "Cannot verifiy password"
    );
}

#[test]
fn api_layer_error_renders_status_and_message() {
    let e = APILayerError {
        status: 403,
        message: "no credit".to_string(),
    };
    assert_eq!(e.message(), "Status: 403, Message: no credit");
    let boundary = APILayerError {
        status: 65535,
        message: "m".to_string(),
    };
    assert_eq!(boundary.message(), "Status: 65535, Message: m");
}
