use usenet_dl::error::{
    ApiError, DatabaseError, DetailField, DetailValue, Details, DownloadError, Error,
    PostProcessError, ToHttpStatus,
};

/// Every reachable variant with its expected status code and error code.
fn all_error_variants() -> Vec<(Error, u16, &'static str)> {
    vec![
        (
            Error::Config { message: "bad value".into(), key: Some("download_dir".into()) },
            400,
            "config_error",
        ),
        (Error::InvalidNzb("missing segments".into()), 422, "invalid_nzb"),
        (Error::Duplicate("already queued".into()), 409, "duplicate"),
        (Error::NotFound("download 99".into()), 404, "not_found"),
        (
            Error::Database(DatabaseError::QueryFailed("timeout".into())),
            500,
            "database_error",
        ),
        (Error::Io("gone".into()), 500, "io_error"),
        (Error::ApiServerError("bind failed".into()), 500, "api_server_error"),
        (Error::FolderWatch("inotify error".into()), 500, "folder_watch_error"),
        (Error::DiskSpaceCheckFailed("statvfs failed".into()), 500, "disk_space_check_failed"),
        (Error::Other("unknown".into()), 500, "internal_error"),
        (Error::Nntp("connection reset".into()), 502, "nntp_error"),
        (Error::ShuttingDown, 503, "shutting_down"),
        (Error::ExternalTool("par2 not found".into()), 503, "external_tool_error"),
        (Error::NotSupported("par2 binary missing".into()), 501, "not_supported"),
        (
            Error::InsufficientSpace { required: 1_000_000, available: 500 },
            422,
            "insufficient_space",
        ),
        (Error::Download(DownloadError::NotFound { id: 42 }), 404, "download_not_found"),
        (
            Error::Download(DownloadError::FilesNotFound { id: 42, path: "/tmp/dl".into() }),
            404,
            "files_not_found",
        ),
        (
            Error::Download(DownloadError::AlreadyInState { id: 42, state: "paused".into() }),
            409,
            "already_in_state",
        ),
        (
            Error::Download(DownloadError::InvalidState {
                id: 42,
                operation: "pause".into(),
                current_state: "completed".into(),
            }),
            409,
            "invalid_state",
        ),
        (
            Error::Download(DownloadError::InsufficientSpace { required: 2_000_000, available: 1_000 }),
            422,
            "insufficient_space",
        ),
        (
            Error::PostProcess(PostProcessError::VerificationFailed { id: 1, reason: "corrupt".into() }),
            422,
            "verification_failed",
        ),
        (
            Error::PostProcess(PostProcessError::RepairFailed { id: 1, reason: "too many missing".into() }),
            422,
            "repair_failed",
        ),
        (
            Error::PostProcess(PostProcessError::ExtractionFailed {
                archive: "test.rar".into(),
                reason: "crc error".into(),
            }),
            422,
            "extraction_failed",
        ),
        (
            Error::PostProcess(PostProcessError::WrongPassword { archive: "secret.rar".into() }),
            422,
            "wrong_password",
        ),
        (
            Error::PostProcess(PostProcessError::AllPasswordsFailed {
                archive: "secret.rar".into(),
                count: 5,
            }),
            422,
            "all_passwords_failed",
        ),
        (
            Error::PostProcess(PostProcessError::NoPasswordsAvailable { archive: "secret.rar".into() }),
            422,
            "no_passwords_available",
        ),
        (
            Error::PostProcess(PostProcessError::MoveFailed {
                source_path: "/tmp/a".into(),
                dest_path: "/tmp/b".into(),
                reason: "permission denied".into(),
            }),
            422,
            "move_failed",
        ),
        (
            Error::PostProcess(PostProcessError::FileCollision {
                path: "/dest/file.mkv".into(),
                reason: "file already exists".into(),
            }),
            422,
            "file_collision",
        ),
        (
            Error::PostProcess(PostProcessError::CleanupFailed { id: 1, reason: "directory not empty".into() }),
            422,
            "cleanup_failed",
        ),
        (
            Error::PostProcess(PostProcessError::InvalidPath {
                path: "../escape".into(),
                reason: "path traversal".into(),
            }),
            422,
            "invalid_path",
        ),
        (
            Error::PostProcess(PostProcessError::DirectUnpackFailed { id: 1, reason: "extraction error".into() }),
            422,
            "direct_unpack_failed",
        ),
        (
            Error::PostProcess(PostProcessError::DirectRenameFailed { id: 1, reason: "rename error".into() }),
            422,
            "direct_rename_failed",
        ),
    ]
}

fn detail<'a>(api: &'a ApiError, key: &str) -> Option<&'a DetailValue> {
    api.error.details.as_ref().expect("should have details").get(key)
}

fn text(s: &str) -> DetailValue {
    DetailValue::Text(s.to_string())
}

#[test]
fn every_variant_maps_to_expected_status_code() {
    for (error, expected_status, expected_code) in all_error_variants() {
        let actual_status = error.status_code();
        assert_eq!(
            actual_status, expected_status,
            "Error variant with error_code={expected_code} returned status {actual_status}, expected {expected_status}"
        );
    }
}

#[test]
fn every_variant_maps_to_expected_error_code() {
    for (error, expected_status, expected_code) in all_error_variants() {
        let actual_code = error.error_code();
        assert_eq!(
            actual_code, expected_code,
            "Error variant with expected status={expected_status} returned error_code={actual_code}, expected {expected_code}"
        );
    }
}

#[test]
fn config_error_is_400_not_500() {
    let err = Error::Config { message: "bad".into(), key: None };
    assert_eq!(err.status_code(), 400);
}

#[test]
fn invalid_nzb_is_422_not_400() {
    let err = Error::InvalidNzb("bad xml".into());
    assert_eq!(err.status_code(), 422);
}

#[test]
fn duplicate_is_409_conflict() {
    let err = Error::Duplicate("same hash".into());
    assert_eq!(err.status_code(), 409);
}

#[test]
fn download_not_found_is_404() {
    let err = Error::Download(DownloadError::NotFound { id: 1 });
    assert_eq!(err.status_code(), 404);
}

#[test]
fn download_files_not_found_is_404() {
    let err = Error::Download(DownloadError::FilesNotFound { id: 1, path: "/tmp".into() });
    assert_eq!(err.status_code(), 404);
}

#[test]
fn download_already_in_state_is_409() {
    let err = Error::Download(DownloadError::AlreadyInState { id: 1, state: "paused".into() });
    assert_eq!(err.status_code(), 409);
}

#[test]
fn download_invalid_state_is_409() {
    let err = Error::Download(DownloadError::InvalidState {
        id: 1,
        operation: "resume".into(),
        current_state: "completed".into(),
    });
    assert_eq!(err.status_code(), 409);
}

#[test]
fn nntp_error_is_502_bad_gateway() {
    let err = Error::Nntp("connection refused".into());
    assert_eq!(err.status_code(), 502);
}

#[test]
fn shutting_down_is_503() {
    assert_eq!(Error::ShuttingDown.status_code(), 503);
}

#[test]
fn not_supported_is_501() {
    let err = Error::NotSupported("feature X".into());
    assert_eq!(err.status_code(), 501);
}

#[test]
fn api_error_from_download_not_found_has_download_id() {
    let err = Error::Download(DownloadError::NotFound { id: 42 });
    let api: ApiError = err.into();

    assert_eq!(api.error.code, "download_not_found");
    assert_eq!(detail(&api, "download_id"), Some(&DetailValue::Int(42)));
}

#[test]
fn api_error_from_download_files_not_found_has_id_and_path() {
    let err = Error::Download(DownloadError::FilesNotFound { id: 7, path: "/data/downloads/test".into() });
    let api: ApiError = err.into();

    assert_eq!(api.error.code, "files_not_found");
    assert_eq!(detail(&api, "download_id"), Some(&DetailValue::Int(7)));
    assert_eq!(detail(&api, "path"), Some(&text("/data/downloads/test")));
}

#[test]
fn api_error_from_already_in_state_has_id_and_state() {
    let err = Error::Download(DownloadError::AlreadyInState { id: 10, state: "paused".into() });
    let api: ApiError = err.into();

    assert_eq!(api.error.code, "already_in_state");
    assert_eq!(detail(&api, "download_id"), Some(&DetailValue::Int(10)));
    assert_eq!(detail(&api, "state"), Some(&text("paused")));
}

#[test]
fn api_error_from_invalid_state_has_operation_and_current_state() {
    let err = Error::Download(DownloadError::InvalidState {
        id: 3,
        operation: "pause".into(),
        current_state: "completed".into(),
    });
    let api: ApiError = err.into();

    assert_eq!(api.error.code, "invalid_state");
    assert_eq!(detail(&api, "download_id"), Some(&DetailValue::Int(3)));
    assert_eq!(detail(&api, "operation"), Some(&text("pause")));
    assert_eq!(detail(&api, "current_state"), Some(&text("completed")));
}

#[test]
fn api_error_from_download_insufficient_space_has_byte_counts() {
    let err = Error::Download(DownloadError::InsufficientSpace { required: 5_000_000, available: 1_000 });
    let api: ApiError = err.into();

    assert_eq!(api.error.code, "insufficient_space");
    assert_eq!(detail(&api, "required_bytes"), Some(&DetailValue::Unsigned(5_000_000)));
    assert_eq!(detail(&api, "available_bytes"), Some(&DetailValue::Unsigned(1_000)));
}

#[test]
fn api_error_from_top_level_insufficient_space_has_byte_counts() {
    let err = Error::InsufficientSpace { required: 9_999_999, available: 42 };
    let api: ApiError = err.into();

    assert_eq!(api.error.code, "insufficient_space");
    assert_eq!(detail(&api, "required_bytes"), Some(&DetailValue::Unsigned(9_999_999)));
    assert_eq!(detail(&api, "available_bytes"), Some(&DetailValue::Unsigned(42)));
}

#[test]
fn api_error_from_all_passwords_failed_has_archive_and_count() {
    let err = Error::PostProcess(PostProcessError::AllPasswordsFailed {
        archive: "/tmp/secret.rar".into(),
        count: 15,
    });
    let api: ApiError = err.into();

    assert_eq!(api.error.code, "all_passwords_failed");
    assert_eq!(detail(&api, "archive"), Some(&text("/tmp/secret.rar")));
    assert_eq!(detail(&api, "password_count"), Some(&DetailValue::Unsigned(15)));
}

#[test]
fn api_error_from_wrong_password_has_archive() {
    let err = Error::PostProcess(PostProcessError::WrongPassword { archive: "/tmp/encrypted.rar".into() });
    let api: ApiError = err.into();

    assert_eq!(api.error.code, "wrong_password");
    assert_eq!(detail(&api, "archive"), Some(&text("/tmp/encrypted.rar")));
}

#[test]
fn api_error_from_file_collision_has_path() {
    let err = Error::PostProcess(PostProcessError::FileCollision {
        path: "/dest/movie.mkv".into(),
        reason: "file already exists".into(),
    });
    let api: ApiError = err.into();

    assert_eq!(api.error.code, "file_collision");
    assert_eq!(detail(&api, "path"), Some(&text("/dest/movie.mkv")));
}

#[test]
fn api_error_from_io_has_no_details() {
    let err = Error::Io("disk fail".into());
    let api: ApiError = err.into();

    assert_eq!(api.error.code, "io_error");
    assert!(api.error.details.is_none(), "Io errors should not have structured details");
}

#[test]
fn api_error_from_nntp_has_no_details() {
    let err = Error::Nntp("timeout".into());
    let api: ApiError = err.into();

    assert_eq!(api.error.code, "nntp_error");
    assert!(api.error.details.is_none(), "NNTP errors should not have structured details");
}

#[test]
fn api_error_from_shutting_down_has_no_details() {
    let api: ApiError = Error::ShuttingDown.into();

    assert_eq!(api.error.code, "shutting_down");
    assert!(api.error.details.is_none(), "ShuttingDown should not have structured details");
}

#[test]
fn api_error_from_config_has_no_details() {
    let err = Error::Config { message: "invalid port".into(), key: Some("server.port".into()) };
    let api: ApiError = err.into();

    assert_eq!(api.error.code, "config_error");
    assert!(api.error.details.is_none(), "Config errors should not have structured details");
}

#[test]
fn api_error_from_database_has_no_details() {
    let err = Error::Database(DatabaseError::ConnectionFailed("refused".into()));
    let api: ApiError = err.into();

    assert_eq!(api.error.code, "database_error");
    assert!(api.error.details.is_none(), "Database errors should not have structured details");
}

#[test]
fn api_error_from_not_found_string_has_no_details() {
    let err = Error::NotFound("download 99".into());
    let api: ApiError = err.into();

    assert_eq!(api.error.code, "not_found");
    assert!(
        api.error.details.is_none(),
        "Top-level NotFound(String) should not have structured details"
    );
}

#[test]
fn api_error_from_other_has_no_details() {
    let err = Error::Other("something went wrong".into());
    let api: ApiError = err.into();

    assert_eq!(api.error.code, "internal_error");
    assert!(api.error.details.is_none());
}

#[test]
fn api_error_from_external_tool_has_no_details() {
    let err = Error::ExternalTool("unrar not found".into());
    let api: ApiError = err.into();

    assert_eq!(api.error.code, "external_tool_error");
    assert!(api.error.details.is_none());
}

#[test]
fn api_error_from_postprocess_without_details_has_none() {
    let variants: Vec<Error> = vec![
        Error::PostProcess(PostProcessError::VerificationFailed { id: 1, reason: "corrupt".into() }),
        Error::PostProcess(PostProcessError::RepairFailed { id: 1, reason: "too damaged".into() }),
        Error::PostProcess(PostProcessError::ExtractionFailed {
            archive: "test.rar".into(),
            reason: "crc error".into(),
        }),
        Error::PostProcess(PostProcessError::NoPasswordsAvailable { archive: "secret.rar".into() }),
        Error::PostProcess(PostProcessError::MoveFailed {
            source_path: "/a".into(),
            dest_path: "/b".into(),
            reason: "denied".into(),
        }),
        Error::PostProcess(PostProcessError::CleanupFailed { id: 1, reason: "locked".into() }),
        Error::PostProcess(PostProcessError::InvalidPath { path: "../bad".into(), reason: "traversal".into() }),
    ];

    for err in variants {
        let code = err.error_code().to_string();
        let api: ApiError = err.into();
        assert!(
            api.error.details.is_none(),
            "PostProcessError with code={code} should not have structured details"
        );
    }
}

#[test]
fn api_error_not_found_factory() {
    let api = ApiError::not_found("Download 123");

    assert_eq!(api.error.code, "not_found");
    assert_eq!(api.error.message, "Download 123 not found");
    assert!(api.error.details.is_none());
}

#[test]
fn api_error_validation_factory() {
    let api = ApiError::validation("name is required");

    assert_eq!(api.error.code, "validation_error");
    assert_eq!(api.error.message, "name is required");
    assert!(api.error.details.is_none());
}

#[test]
fn api_error_conflict_factory() {
    let api = ApiError::conflict("download already exists");

    assert_eq!(api.error.code, "conflict");
    assert_eq!(api.error.message, "download already exists");
    assert!(api.error.details.is_none());
}

#[test]
fn api_error_internal_factory() {
    let api = ApiError::internal("unexpected failure");

    assert_eq!(api.error.code, "internal_error");
    assert_eq!(api.error.message, "unexpected failure");
    assert!(api.error.details.is_none());
}

#[test]
fn api_error_unauthorized_factory() {
    let api = ApiError::unauthorized("invalid token");

    assert_eq!(api.error.code, "unauthorized");
    assert_eq!(api.error.message, "invalid token");
    assert!(api.error.details.is_none());
}

#[test]
fn api_error_service_unavailable_factory() {
    let api = ApiError::service_unavailable("server overloaded");

    assert_eq!(api.error.code, "service_unavailable");
    assert_eq!(api.error.message, "server overloaded");
    assert!(api.error.details.is_none());
}

#[test]
fn with_details_preserves_json_object() {
    let details = Details {
        fields: vec![
            DetailField { key: "download_id".into(), value: DetailValue::Int(42) },
            DetailField { key: "path".into(), value: text("/tmp/test") },
            DetailField { key: "retries".into(), value: DetailValue::Int(3) },
        ],
    };
    let api = ApiError::with_details("custom_error", "something broke", details.clone());

    assert_eq!(api.error.code, "custom_error");
    assert_eq!(api.error.message, "something broke");
    let actual_details = api.error.details.expect("details should be present");
    assert_eq!(actual_details, details);
}

#[test]
fn api_error_message_matches_error_display() {
    let err = Error::Download(DownloadError::InvalidState {
        id: 5,
        operation: "resume".into(),
        current_state: "completed".into(),
    });
    let display_msg = err.message();
    let api: ApiError = err.into();

    assert_eq!(
        api.error.message, display_msg,
        "ApiError message should match the Error's Display output"
    );
    assert_eq!(display_msg, "download error: cannot resume download 5 in state completed");
}

#[test]
fn api_error_from_nntp_preserves_display_message_and_maps_to_502() {
    let err = Error::Nntp("connection reset by peer".into());
    let display_msg = err.message();
    let status = err.status_code();
    let api: ApiError = err.into();

    assert_eq!(status, 502, "NNTP errors must map to 502 Bad Gateway");
    assert_eq!(api.error.code, "nntp_error");
    assert_eq!(api.error.message, display_msg, "ApiError message must match Error::Nntp Display output");
    assert!(
        api.error.message.contains("connection reset by peer"),
        "ApiError message must contain the original NNTP error string"
    );
    assert!(api.error.details.is_none(), "NNTP errors should not have structured details");
}

#[test]
fn api_error_message_for_insufficient_space_includes_byte_counts() {
    let err = Error::InsufficientSpace { required: 1_048_576, available: 512 };
    let api: ApiError = err.into();

    assert!(api.error.message.contains("1048576"), "message should contain the required bytes");
    assert!(api.error.message.contains("512"), "message should contain the available bytes");
}

// ---------------------------------------------------------------------------
// Messages
// ---------------------------------------------------------------------------

#[test]
fn messages_follow_each_variant() {
    let cases: Vec<(Error, &str)> = vec![
        (Error::Config { message: "bad".into(), key: None }, "configuration error: bad"),
        (
            Error::Database(DatabaseError::ConstraintViolation("dup".into())),
            "database error: constraint violation: dup",
        ),
        (Error::Sqlx("pool closed".into()), "database error: pool closed"),
        (Error::Io("gone".into()), "I/O error: gone"),
        (Error::NotFound("x".into()), "download not found: x"),
        (Error::ShuttingDown, "shutdown in progress: not accepting new downloads"),
        (
            Error::InsufficientSpace { required: 10, available: 3 },
            "insufficient disk space: need 10 bytes, have 3 bytes",
        ),
        (Error::Other("plain".into()), "plain"),
        (
            Error::Download(DownloadError::NotFound { id: -7 }),
            "download error: download -7 not found",
        ),
        (
            Error::Download(DownloadError::FilesNotFound { id: 3, path: "/p".into() }),
            "download error: download 3 files not found at /p",
        ),
        (
            Error::PostProcess(PostProcessError::AllPasswordsFailed { archive: "a.rar".into(), count: 0 }),
            "post-processing error: all 0 passwords failed for archive a.rar",
        ),
        (
            Error::PostProcess(PostProcessError::VerificationFailed { id: 9, reason: "r".into() }),
            "post-processing error: PAR2 verification failed for download 9: r",
        ),
        (
            Error::PostProcess(PostProcessError::MoveFailed {
                source_path: "/a".into(),
                dest_path: "/b".into(),
                reason: "denied".into(),
            }),
            "post-processing error: failed to move /a to /b: denied",
        ),
    ];
    for (err, expected) in cases {
        assert_eq!(err.message(), expected);
    }
}

#[test]
fn messages_of_extreme_numbers() {
    let err = Error::Download(DownloadError::NotFound { id: i64::MIN });
    assert_eq!(err.message(), format!("download error: download {} not found", i64::MIN));
    let err = Error::InsufficientSpace { required: u64::MAX, available: 0 };
    assert_eq!(
        err.message(),
        format!("insufficient disk space: need {} bytes, have 0 bytes", u64::MAX)
    );
}

#[test]
fn details_get_finds_first_field_with_the_name() {
    let details = Details {
        fields: vec![
            DetailField { key: "a".into(), value: DetailValue::Int(1) },
            DetailField { key: "a".into(), value: DetailValue::Int(2) },
        ],
    };
    assert_eq!(details.get("a"), Some(&DetailValue::Int(1)));
    assert_eq!(details.get("b"), None);
}

#[test]
fn io_failure_message() {
    let e = usenet_dl::error::io_failure("failed to create destination", "denied");
    assert_eq!(e.message(), "I/O error: failed to create destination: denied");
}
