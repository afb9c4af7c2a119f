use totp_server::request::{form_code_field, parse_code, route, same_text, starts_with, submitted_code, Route};

#[test]
fn routes_of_paths() {
    assert_eq!(route("/current_code"), Route::CurrentCode);
    assert_eq!(route("/"), Route::Index);
    assert_eq!(route("/verify"), Route::Verify);
    assert_eq!(route("/verify?x=1"), Route::Verify);
    assert_eq!(route("/current_code/"), Route::NotFound);
    assert_eq!(route(""), Route::NotFound);
    assert_eq!(route("/favicon.ico"), Route::NotFound);
}

#[test]
fn text_comparisons() {
    assert!(starts_with("/verify", "/ver"));
    assert!(starts_with("abc", ""));
    assert!(!starts_with("ab", "abc"));
    assert!(same_text("é", "é"));
    assert!(!same_text("a", "b"));
}

#[test]
fn code_field_of_form_bodies() {
    assert_eq!(form_code_field("code=123456"), "123456");
    assert_eq!(form_code_field("a=1&code=42&code=7"), "42");
    assert_eq!(form_code_field("codes=1&code=9"), "9");
    assert_eq!(form_code_field("x=1"), "");
    assert_eq!(form_code_field(""), "");
    assert_eq!(form_code_field("code="), "");
    assert_eq!(form_code_field("&&code=5&"), "5");
}

#[test]
fn parse_code_like_str_parse() {
    for text in ["123", "+7", "", "+", "-1", "4294967295", "4294967296", "12a", "007", " 1", "99999999999999999999"] {
        assert_eq!(parse_code(text), text.parse::<u32>().ok(), "{}", text);
    }
    assert_eq!(parse_code("123456"), Some(123456));
}

#[test]
fn submitted_code_defaults_to_zero() {
    assert_eq!(submitted_code("code=123456"), 123456);
    assert_eq!(submitted_code("code=abc"), 0);
    assert_eq!(submitted_code("other=1"), 0);
}
