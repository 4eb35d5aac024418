use wasmrust::registry::{
    list_crates_url, list_filter, pagination_for, page_offset, ApiResponse, ResponseStatus, TestOutcome, TestingConfig,
    TestingError, TestingPipeline, validate_crate_metadata,
};

#[test]
fn test_metadata_validation() {
    assert!(validate_crate_metadata("serde", "1.0.0-beta", 1, "MIT").is_ok());
    assert_eq!(validate_crate_metadata("", "1.0", 1, "MIT").unwrap_err(), "Crate name cannot be empty");
    assert_eq!(validate_crate_metadata("a", "", 1, "MIT").unwrap_err(), "Crate version cannot be empty");
    assert_eq!(validate_crate_metadata("a", "1", 0, "MIT").unwrap_err(), "Crate must have at least one author");
    assert_eq!(validate_crate_metadata("a", "1", 2, "").unwrap_err(), "Crate license cannot be empty");
    assert_eq!(validate_crate_metadata("a", "1.0+build", 2, "MIT").unwrap_err(), "Invalid version format");
}

#[test]
fn test_pagination() {
    assert_eq!(page_offset(1, 20), 0);
    assert_eq!(page_offset(3, 20), 40);
    assert_eq!(pagination_for(1, 20, 45).total_pages, 3);
    assert_eq!(pagination_for(1, 20, 40).total_pages, 2);
    assert_eq!(pagination_for(1, 20, 0).total_pages, 0);
    assert_eq!(pagination_for(1, 0, 0).total_pages, 0);
    assert_eq!(pagination_for(1, 0, 5).total_pages, u32::MAX);
    assert_eq!(pagination_for(2, 1, u64::MAX).total_pages, u32::MAX);
}

#[test]
fn test_api_responses() {
    let ok: ApiResponse<u32> = ApiResponse::success(7, None);
    assert_eq!(ok.status, ResponseStatus::Success);
    assert_eq!(ok.data, Some(7));
    let err: ApiResponse<u32> = ApiResponse::failure("boom".to_string());
    assert_eq!(err.status, ResponseStatus::Error);
    assert_eq!(err.error, Some("boom".to_string()));
}

#[test]
fn test_testing_config_default() {
    let config = TestingConfig::default();
    assert_eq!(config.rust_toolchain, "stable");
    assert_eq!(config.wasm_target, "wasm32-unknown-unknown");
    assert_eq!(config.wasm_runtime, "wasmtime");
    assert_eq!(config.compilation_timeout, 300);
    assert_eq!(config.test_timeout, 60);
    assert_eq!(config.temp_dir, "/tmp/wasm-crates-testing");
    assert!(config.environment_vars.is_empty());
}

#[test]
fn test_compilation_verdicts() {
    let pipeline = TestingPipeline::new(TestingConfig::default());
    let (outcome, errors) = pipeline.compilation_verdict(Ok(()), Ok(()));
    assert_eq!(outcome, TestOutcome::Passed);
    assert!(errors.is_empty());
    let (outcome, errors) = pipeline.compilation_verdict(Err("e1".to_string()), Err("e2".to_string()));
    assert_eq!(outcome, TestOutcome::Failed);
    assert_eq!(errors, vec!["Native compilation failed: e1".to_string(), "WASM compilation failed: e2".to_string()]);
    assert_eq!(
        pipeline.wasm_binary_path("/src/foo", "Cargo"),
        "/src/foo/target/wasm32-unknown-unknown/release/Cargo.wasm"
    );
    let env = pipeline.test_environment("linux".to_string(), "x86_64".to_string());
    assert_eq!(env.rust_version, "stable");
    assert_eq!(env.os, "linux");
    assert_eq!(TestingError::ConfigError("x".to_string()).to_message(), "Configuration error: x");
}

#[test]
fn test_list_filter() {
    let (w, p) = list_filter(None, None, None);
    assert_eq!(w, "");
    assert!(p.is_empty());
    let (w, p) = list_filter(Some("\"Approved\"".to_string()), Some("Compatible".to_string()), Some("json".to_string()));
    assert_eq!(
        w,
        "WHERE status = ? AND wasm_compatibility LIKE ? AND (name LIKE ? OR description LIKE ? OR keywords LIKE ?)"
    );
    assert_eq!(
        p,
        vec![
            "\"Approved\"".to_string(),
            "%\"level\":\"Compatible\"%".to_string(),
            "%json%".to_string(),
            "%json%".to_string(),
            "%json%".to_string(),
        ]
    );
    let (w, p) = list_filter(None, None, Some("x".to_string()));
    assert_eq!(w, "WHERE (name LIKE ? OR description LIKE ? OR keywords LIKE ?)");
    assert_eq!(p.len(), 3);
}

#[test]
fn test_list_crates_url() {
    assert_eq!(
        list_crates_url("http://localhost:8080", 2, 20, &None, &Some("Partial".to_string()), &Some("json".to_string())),
        "http://localhost:8080/crates?page=2&page_size=20&compatibility=Partial&search=json"
    );
    assert_eq!(list_crates_url("u", 1, 5, &None, &None, &None), "u/crates?page=1&page_size=5");
}

#[test]
fn filter_placeholders_match_parameters() {
    let cases = vec![
        (None, None, None),
        (Some("approved".to_string()), None, None),
        (None, Some("Compatible".to_string()), Some("json".to_string())),
        (Some("pending".to_string()), Some("Partial".to_string()), Some("serde".to_string())),
    ];
    for (status, compatibility, search) in cases {
        let (where_clause, params) = list_filter(status, compatibility, search);
        assert_eq!(where_clause.chars().filter(|c| *c == '?').count(), params.len());
    }
}
