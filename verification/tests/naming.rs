use chronon_script_model::to_pascal_case;

#[test]
fn to_pascal_case_happy() {
    assert_eq!(to_pascal_case("daily_highscores"), "DailyHighscores");
    assert_eq!(to_pascal_case("simple"), "Simple");
    assert_eq!(to_pascal_case("a_b_c"), "ABC");
}

#[test]
fn to_pascal_case_skips_empty_words() {
    assert_eq!(to_pascal_case("__leading__double_"), "LeadingDouble");
    assert_eq!(to_pascal_case(""), "");
    assert_eq!(to_pascal_case("___"), "");
}

#[test]
fn to_pascal_case_keeps_rest_of_word() {
    assert_eq!(to_pascal_case("http_URL_2x"), "HttpURL2x");
    assert_eq!(to_pascal_case("9lives_ok"), "9livesOk");
}

#[test]
fn to_pascal_case_uses_unicode_uppercase() {
    assert_eq!(to_pascal_case("école_x"), "ÉcoleX");
    assert_eq!(to_pascal_case("ß_b"), "SSB");
}

#[test]
fn to_pascal_case_is_idempotent_on_ascii() {
    let once = to_pascal_case("daily_clean_up");
    assert_eq!(to_pascal_case(&once), once);
}
