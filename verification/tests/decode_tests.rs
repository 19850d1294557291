use bash_env::decode::{decode, Decoded};
use bash_env::errors::{EnvError, ExitKind};
use bash_env::pipeline::process_output;

fn pairs(ps: &[(&str, &str)]) -> Vec<(String, String)> {
    ps.iter().map(|(k, v)| (k.to_string(), v.to_string())).collect()
}

#[test]
fn failure_form_decodes_to_failure() {
    let r = decode("{\"error\":\"syntax error near line 3\"}");
    assert_eq!(r, Decoded::Failure("syntax error near line 3".to_string()));
}

#[test]
fn error_member_wins_over_data_members() {
    let r = decode(
        "{\"env\":{\"A\":\"a\"},\"shellvars\":{\"B\":\"b\"},\"error\":\"boom\"}",
    );
    assert_eq!(r, Decoded::Failure("boom".to_string()));
}

#[test]
fn dual_mapping_form_decodes_to_success() {
    let r = decode("{\"env\":{\"A\":\"a\"},\"shellvars\":{\"B\":\"b\"},\"error\":null}");
    assert_eq!(
        r,
        Decoded::Success(pairs(&[("A", "a")]), pairs(&[("B", "b")]))
    );
}

#[test]
fn member_order_follows_the_document() {
    let r = decode("{\"env\":{\"Z\":\"1\",\"A\":\"2\",\"M\":\"3\"},\"shellvars\":{},\"error\":null}");
    assert_eq!(
        r,
        Decoded::Success(pairs(&[("Z", "1"), ("A", "2"), ("M", "3")]), pairs(&[]))
    );
}

#[test]
fn unparseable_text_is_not_json() {
    assert_eq!(decode("not json at all"), Decoded::NotJson);
}

#[test]
fn empty_object_is_the_wrong_shape() {
    assert_eq!(decode("{}"), Decoded::BadShape);
}

#[test]
fn missing_shellvars_is_the_wrong_shape() {
    assert_eq!(decode("{\"env\":{\"A\":\"a\"}}"), Decoded::BadShape);
}

#[test]
fn non_string_variable_value_is_the_wrong_shape() {
    assert_eq!(
        decode("{\"env\":{\"A\":1},\"shellvars\":{},\"error\":null}"),
        Decoded::BadShape
    );
}

#[test]
fn non_text_error_member_is_the_wrong_shape() {
    assert_eq!(
        decode("{\"env\":{\"A\":\"a\"},\"shellvars\":{},\"error\":42}"),
        Decoded::BadShape
    );
}

#[test]
fn a_json_array_is_the_wrong_shape() {
    assert_eq!(decode("[1,2]"), Decoded::BadShape);
}

#[test]
fn null_error_member_alone_is_the_wrong_shape() {
    assert_eq!(decode("{\"error\":null}"), Decoded::BadShape);
}

#[test]
fn reported_error_is_authoritative_whatever_the_exit() {
    let r = process_output("{\"error\":\"syntax error near line 3\"}", &ExitKind::Exited(0));
    assert_eq!(
        r,
        Err(EnvError::HelperReportedError("syntax error near line 3".to_string()))
    );
    let r = process_output("{\"error\":\"boom\"}", &ExitKind::Exited(1));
    assert_eq!(r, Err(EnvError::HelperReportedError("boom".to_string())));
}

#[test]
fn clean_exit_with_good_payload_succeeds() {
    let r = process_output(
        "{\"env\":{\"A\":\"a\"},\"shellvars\":{\"B\":\"b\"},\"error\":null}",
        &ExitKind::Exited(0),
    );
    assert_eq!(r, Ok((pairs(&[("A", "a")]), pairs(&[("B", "b")]))));
}

#[test]
fn nonzero_exit_without_payload_carries_the_code() {
    let r = process_output("", &ExitKind::Exited(3));
    assert_eq!(r, Err(EnvError::SubprocessError(ExitKind::Exited(3))));
}

#[test]
fn nonzero_exit_overrides_a_success_payload() {
    let r = process_output(
        "{\"env\":{},\"shellvars\":{},\"error\":null}",
        &ExitKind::Exited(2),
    );
    assert_eq!(r, Err(EnvError::SubprocessError(ExitKind::Exited(2))));
}

#[test]
fn clean_exit_with_bad_payload_is_a_decode_error() {
    let r = process_output("garbage", &ExitKind::Exited(0));
    assert_eq!(r, Err(EnvError::DecodeError));
}
