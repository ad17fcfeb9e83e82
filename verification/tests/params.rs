//! Numbers that come as numbers or as texts.
use compas::json::{parse_json, Json};
use compas::mcp::params::option_u64_lenient;

fn number(text: &str, key: &str) -> Result<Option<u64>, String> {
    let value: Json = parse_json(text).unwrap();
    option_u64_lenient(value.get(key))
}

#[test]
fn test_wait_merge_params_timeout_as_integer() {
    let timeout_secs = number(r#"{"op_id": "abc", "timeout_secs": 120}"#, "timeout_secs").unwrap();
    assert_eq!(timeout_secs, Some(120));
}

#[test]
fn test_wait_merge_params_timeout_as_string() {
    let timeout_secs = number(r#"{"op_id": "abc", "timeout_secs": "120"}"#, "timeout_secs").unwrap();
    assert_eq!(timeout_secs, Some(120));
}

#[test]
fn test_wait_merge_params_timeout_null() {
    let timeout_secs = number(r#"{"op_id": "abc", "timeout_secs": null}"#, "timeout_secs").unwrap();
    assert_eq!(timeout_secs, None);
}

#[test]
fn test_wait_merge_params_timeout_missing() {
    let timeout_secs = number(r#"{"op_id": "abc"}"#, "timeout_secs").unwrap();
    assert_eq!(timeout_secs, None);
}

#[test]
fn test_wait_merge_params_timeout_invalid_string() {
    let result = number(r#"{"op_id": "abc", "timeout_secs": "not_a_number"}"#, "timeout_secs");
    assert!(result.is_err());
    let err = result.unwrap_err().to_string();
    assert!(err.contains("invalid u64 string"), "unexpected error: {err}");
}

#[test]
fn test_wait_params_timeout_as_string() {
    let timeout_secs = number(r#"{"thread_id": "t1", "timeout_secs": "300"}"#, "timeout_secs").unwrap();
    assert_eq!(timeout_secs, Some(300));
}

#[test]
fn test_wait_params_timeout_as_integer() {
    let timeout_secs = number(r#"{"thread_id": "t1", "timeout_secs": 300}"#, "timeout_secs").unwrap();
    assert_eq!(timeout_secs, Some(300));
}

#[test]
fn test_read_log_params_u64_fields_as_strings() {
    let text = r#"{"execution_id": "e1", "offset": "10", "limit": "500"}"#;
    assert_eq!(number(text, "offset").unwrap(), Some(10));
    assert_eq!(number(text, "limit").unwrap(), Some(500));
}

#[test]
fn test_read_log_params_u64_fields_as_integers() {
    let text = r#"{"execution_id": "e1", "offset": 10, "limit": 500}"#;
    assert_eq!(number(text, "offset").unwrap(), Some(10));
    assert_eq!(number(text, "limit").unwrap(), Some(500));
}

#[test]
fn lenient_numbers_refuse_everything_else() {
    for text in [r#"{"n": true}"#, r#"{"n": []}"#, r#"{"n": -1}"#, r#"{"n": 1.5}"#, r#"{"n": {}}"#] {
        assert_eq!(
            number(text, "n").unwrap_err(),
            "data did not match any variant of untagged enum StringOrU64",
            "{text}"
        );
    }
    assert_eq!(number(r#"{"n": ""}"#, "n").unwrap_err(), "invalid u64 string: ");
    assert_eq!(number(r#"{"n": "-3"}"#, "n").unwrap_err(), "invalid u64 string: -3");
}
