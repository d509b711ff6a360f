use nimbus::targeting::{evaluate, is_eligible, AppContext, EvalError, PrefValue, Preference};

fn ctx() -> AppContext {
    AppContext {
        app_name: "fenix".to_string(),
        app_version: "76.0".to_string(),
        app_build: "2015745427".to_string(),
        architecture: "arm64-v8a".to_string(),
        device_manufacturer: "Google".to_string(),
        device_model: "Pixel 4".to_string(),
        locale: "en-US".to_string(),
        os: "Android".to_string(),
        os_version: "11".to_string(),
        channel: "release".to_string(),
        randomization_id: "c4b8a9f0-1234-4abc-9def-0123456789ab".to_string(),
        // 2020-06-01T00:00:00Z
        now_ms: 1590969600000,
        active_experiments: vec!["study-a".to_string(), "study-b".to_string()],
        preferences: vec![
            Preference { name: "seen".to_string(), value: PrefValue::Bool(true) },
            Preference { name: "count".to_string(), value: PrefValue::Num(3) },
        ],
    }
}

#[test]
fn literals_and_fields() {
    let c = ctx();
    assert_eq!(evaluate("true", &c), Ok(true));
    assert_eq!(evaluate("false", &c), Ok(false));
    assert_eq!(evaluate("  locale == 'en-US' ", &c), Ok(true));
    assert_eq!(evaluate("channel == \"beta\"", &c), Ok(false));
    assert_eq!(evaluate("os != 'iOS'", &c), Ok(true));
    assert_eq!(evaluate("appName == 'fenix'", &c), Ok(true));
    assert_eq!(evaluate("env.version == '76.0'", &c), Ok(true));
}

#[test]
fn connectives_and_precedence() {
    let c = ctx();
    assert_eq!(evaluate("true || false && false", &c), Ok(true));
    assert_eq!(evaluate("(true || false) && false", &c), Ok(false));
    assert_eq!(evaluate("!false && !(locale == 'fr')", &c), Ok(true));
    assert_eq!(evaluate("!true || true == false", &c), Ok(false));
    assert_eq!(evaluate("false || false || true", &c), Ok(true));
}

#[test]
fn membership_in_active_experiments() {
    let c = ctx();
    assert_eq!(evaluate("'study-b' in activeExperiments", &c), Ok(true));
    assert_eq!(evaluate("'study-c' in activeExperiments", &c), Ok(false));
    assert_eq!(evaluate("!('study-a' in activeExperiments)", &c), Ok(false));
}

#[test]
fn evaluation_errors() {
    let c = ctx();
    assert_eq!(evaluate("", &c), Err(EvalError::ParseError));
    assert_eq!(evaluate("locale ==", &c), Err(EvalError::ParseError));
    assert_eq!(evaluate("(true", &c), Err(EvalError::ParseError));
    assert_eq!(evaluate("'unterminated", &c), Err(EvalError::ParseError));
    assert_eq!(evaluate("true true", &c), Err(EvalError::ParseError));
    assert_eq!(evaluate("region == 'US'", &c), Err(EvalError::UnknownField));
    assert_eq!(evaluate("locale", &c), Err(EvalError::TypeMismatch));
    assert_eq!(evaluate("locale == true", &c), Err(EvalError::TypeMismatch));
    assert_eq!(evaluate("!locale", &c), Err(EvalError::TypeMismatch));
    assert_eq!(evaluate("locale && true", &c), Err(EvalError::TypeMismatch));
    assert_eq!(evaluate("'x' in locale", &c), Err(EvalError::TypeMismatch));
    assert_eq!(evaluate("'pref'|frobnicate", &c), Err(EvalError::UnknownFunction));
    assert_eq!(evaluate("1234567890123456789 == 1", &c), Err(EvalError::ParseError));
    assert_eq!(evaluate("'2020-13-01'|date == 0", &c), Err(EvalError::TypeMismatch));
    assert_eq!(evaluate("[1, 2]", &c), Err(EvalError::TypeMismatch));
    assert_eq!(evaluate("['a']|bucketSample(0, 1, 10) ", &c), Err(EvalError::TypeMismatch));
    assert_eq!(evaluate("1 < 'a'", &c), Err(EvalError::TypeMismatch));
}

#[test]
fn eligibility_fails_closed() {
    let c = ctx();
    assert!(is_eligible(&None, &c));
    assert!(is_eligible(&Some("   ".to_string()), &c));
    assert!(is_eligible(&Some("locale == 'en-US'".to_string()), &c));
    assert!(!is_eligible(&Some("locale == 'de'".to_string()), &c));
    assert!(!is_eligible(&Some("nonsense ==".to_string()), &c));
}

#[test]
fn numbers_null_and_ordering() {
    let c = ctx();
    assert_eq!(evaluate("3 < 10", &c), Ok(true));
    assert_eq!(evaluate("10 <= 10 && 11 > 10 && 10 >= 11", &c), Ok(false));
    assert_eq!(evaluate("env.version >= '76.' && env.version < '77.'", &c), Ok(true));
    assert_eq!(evaluate("'abc' < 'abd'", &c), Ok(true));
    assert_eq!(evaluate("'ab' < 'a'", &c), Ok(false));
    assert_eq!(evaluate("null == null && locale != null", &c), Ok(true));
    assert_eq!(evaluate("!null", &c), Ok(true));
    assert_eq!(evaluate("env.channel == 'release' && osVersion == '11'", &c), Ok(true));
}

#[test]
fn lists_and_filters() {
    let c = ctx();
    assert_eq!(evaluate("'b' in ['a', 'b']", &c), Ok(true));
    assert_eq!(evaluate("'z' in []", &c), Ok(false));
    assert_eq!(evaluate("'seen'|preferenceValue", &c), Ok(true));
    assert_eq!(evaluate("'count'|preferenceValue == 3", &c), Ok(true));
    assert_eq!(evaluate("!('missing'|preferenceValue)", &c), Ok(true));
    assert_eq!(evaluate("'1970-01-02'|date == 86400000", &c), Ok(true));
    assert_eq!(evaluate("'2020-05-13'|date == 1589328000000", &c), Ok(true));
    assert_eq!(evaluate("currentDate > '2020-05-13'|date", &c), Ok(true));
    assert_eq!(evaluate("[userId, 'ns']|bucketSample(0, 10000, 10000)", &c), Ok(true));
    assert_eq!(evaluate("[userId, 'ns']|bucketSample(0, 0, 10000)", &c), Ok(false));
    let inside = nimbus::sampling::in_bucket("c4b8a9f0-1234-4abc-9def-0123456789ab", "ns", 0, 2000, 10000);
    assert_eq!(evaluate("[userId, 'ns']|bucketSample(0, 2000, 10000)", &c), Ok(inside));
    assert_eq!(
        evaluate(
            "(env.version >= '76.' && env.channel == 'release') || (locale == 'en-US' && [userId, \"x\"]|bucketSample(0, 2000, 10000) && (!('seen'|preferenceValue) || 'study-a' in activeExperiments))",
            &c
        ),
        Ok(true)
    );
}
