use log_inspector::error_types::{parse_error_types, primary_error_type, ErrorClassification, ErrorType};

const ALL: [ErrorType; 8] = [
    ErrorType::Success,
    ErrorType::UserCodeError,
    ErrorType::ScalingError,
    ErrorType::SparkError,
    ErrorType::SparkOomError,
    ErrorType::NetworkError,
    ErrorType::PermissionError,
    ErrorType::UnknownError,
];

#[test]
fn unknown_token_then_known_token() {
    assert_eq!(
        parse_error_types("FOO_BAR, SPARK_ERROR"),
        vec![ErrorType::UnknownError, ErrorType::SparkError]
    );
}

#[test]
fn codes_are_screaming_snake_case() {
    let codes: Vec<&str> = ALL.iter().map(|t| t.code()).collect();
    assert_eq!(
        codes,
        vec![
            "SUCCESS",
            "USER_CODE_ERROR",
            "SCALING_ERROR",
            "SPARK_ERROR",
            "SPARK_OOM_ERROR",
            "NETWORK_ERROR",
            "PERMISSION_ERROR",
            "UNKNOWN_ERROR",
        ]
    );
}

#[test]
fn every_code_reads_back_as_its_type() {
    for t in ALL.iter() {
        assert_eq!(ErrorType::from_code(t.code()), *t);
        assert_eq!(ErrorType::from_code(&t.code().to_lowercase()), *t);
        assert_eq!(ErrorType::from_code(&format!("  \t{}\r\n", t.code())), *t);
    }
}

#[test]
fn tokens_are_normalised_for_case_and_space() {
    assert_eq!(ErrorType::from_code("success"), ErrorType::Success);
    assert_eq!(ErrorType::from_code(" Spark_Oom_Error "), ErrorType::SparkOomError);
    assert_eq!(ErrorType::from_code("\nnetwork_error\t"), ErrorType::NetworkError);
}

#[test]
fn tokens_outside_the_set_are_unknown() {
    assert_eq!(ErrorType::from_code(""), ErrorType::UnknownError);
    assert_eq!(ErrorType::from_code("   "), ErrorType::UnknownError);
    assert_eq!(ErrorType::from_code("SPARK ERROR"), ErrorType::UnknownError);
    assert_eq!(ErrorType::from_code("SPARK_ERRORS"), ErrorType::UnknownError);
    assert_eq!(ErrorType::from_code("SUCCESS."), ErrorType::UnknownError);
    assert_eq!(ErrorType::from_code("ÉCHEC"), ErrorType::UnknownError);
    assert_eq!(ErrorType::from_code("S UCCESS"), ErrorType::UnknownError);
}

#[test]
fn answers_keep_order_and_count() {
    assert_eq!(parse_error_types("SUCCESS"), vec![ErrorType::Success]);
    assert_eq!(
        parse_error_types("SPARK_OOM_ERROR,SCALING_ERROR,NETWORK_ERROR"),
        vec![ErrorType::SparkOomError, ErrorType::ScalingError, ErrorType::NetworkError]
    );
    assert_eq!(
        parse_error_types(" permission_error ,\tUser_Code_Error\n"),
        vec![ErrorType::PermissionError, ErrorType::UserCodeError]
    );
    assert_eq!(
        parse_error_types("SPARK_ERROR, SPARK_ERROR"),
        vec![ErrorType::SparkError, ErrorType::SparkError]
    );
}

#[test]
fn empty_pieces_are_unknown() {
    assert_eq!(parse_error_types(""), vec![ErrorType::UnknownError]);
    assert_eq!(parse_error_types(","), vec![ErrorType::UnknownError, ErrorType::UnknownError]);
    assert_eq!(
        parse_error_types("SUCCESS,"),
        vec![ErrorType::Success, ErrorType::UnknownError]
    );
    assert_eq!(
        parse_error_types(",,SPARK_ERROR"),
        vec![ErrorType::UnknownError, ErrorType::UnknownError, ErrorType::SparkError]
    );
}

#[test]
fn primary_type_is_the_first_named() {
    assert_eq!(primary_error_type("NETWORK_ERROR, SPARK_ERROR"), ErrorType::NetworkError);
    assert_eq!(primary_error_type("what, SPARK_ERROR"), ErrorType::UnknownError);
    assert_eq!(primary_error_type(""), ErrorType::UnknownError);
}

#[test]
fn classification_from_answers() {
    let found = ErrorClassification::from_answers(
        "spark_oom_error, SCALING_ERROR",
        "The executor ran out of memory.\n - Heap: 4 GB\n-Retries: 3\n\nDone.",
    );
    assert_eq!(
        found,
        ErrorClassification {
            error_type: ErrorType::SparkOomError,
            messages: vec!["Heap: 4 GB".to_string(), "Retries: 3".to_string()],
        }
    );
}
