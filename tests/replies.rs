use edge_router::handlers::{
    config_echo_reply, decimal_text, failure_reply, form_field_reply, lucky_number_reply,
    not_found, text_reply, BodyKind, FormEntry,
};

#[test]
fn decimal_text_writes_integers() {
    assert_eq!(decimal_text(0), "0");
    assert_eq!(decimal_text(42), "42");
    assert_eq!(decimal_text(-7), "-7");
    assert_eq!(decimal_text(1000), "1000");
    assert_eq!(decimal_text(i64::MAX), "9223372036854775807");
    assert_eq!(decimal_text(i64::MIN), "-9223372036854775808");
}

#[test]
fn lucky_number_reply_greets() {
    let r = lucky_number_reply(Ok(Some(42)));
    assert_eq!(r.status, 200);
    assert_eq!(r.body, "Your lucky number is: 42");
    assert_eq!(r.kind, BodyKind::Text);
}

#[test]
fn lucky_number_reply_defaults_to_zero() {
    assert_eq!(lucky_number_reply(Ok(None)).body, "Your lucky number is: 0");
    assert_eq!(lucky_number_reply(Ok(Some(-3))).body, "Your lucky number is: -3");
}

#[test]
fn lucky_number_reply_passes_database_errors() {
    let r = lucky_number_reply(Err("connection refused".to_string()));
    assert_eq!(r.status, 400);
    assert_eq!(r.body, "connection refused");
}

#[test]
fn form_text_field_is_echoed_as_json() {
    let r = form_field_reply("name", &Some(FormEntry::Field("Alice".to_string())));
    assert_eq!(r.status, 200);
    assert_eq!(r.kind, BodyKind::Json);
    assert_eq!(r.body, "{\"name\":\"Alice\"}");
}

#[test]
fn form_json_escapes_quotes() {
    let r = form_field_reply("na\"me", &Some(FormEntry::Field("A\\b".to_string())));
    assert_eq!(r.body, "{\"na\\\"me\":\"A\\\\b\"}");
}

#[test]
fn form_file_field_is_unprocessable() {
    let r = form_field_reply("name", &Some(FormEntry::File));
    assert_eq!(r.status, 422);
    assert_eq!(r.body, "`field` param in form shouldn't be a File");
}

#[test]
fn form_missing_field_is_bad_request() {
    let r = form_field_reply("missing", &None);
    assert_eq!(r.status, 400);
    assert_eq!(r.body, "Bad Request");
}

#[test]
fn version_is_echoed() {
    let r = config_echo_reply("WORKERS_RS_VERSION", Some("1.2.3".to_string()));
    assert_eq!(r.status, 200);
    assert_eq!(r.body, "1.2.3");
}

#[test]
fn missing_version_is_a_configuration_error() {
    let r = config_echo_reply("WORKERS_RS_VERSION", None);
    assert_eq!(r.status, 400);
    assert_eq!(r.body, "no binding found for `WORKERS_RS_VERSION`");
}

#[test]
fn fixed_replies() {
    let r = not_found();
    assert_eq!((r.status, r.body.as_str()), (404, "Not Found"));
    let r = failure_reply("body already used".to_string());
    assert_eq!((r.status, r.body.as_str(), r.kind), (500, "body already used", BodyKind::Text));
    let r = text_reply(201, "made".to_string());
    assert_eq!((r.status, r.body.as_str()), (201, "made"));
}
