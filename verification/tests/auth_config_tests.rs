use league_of_legends::auth::{extract_token, get_cookie_value};
use league_of_legends::config::{
    cloudinary_env_from, jwt_env_from, load_config, server_config, ConfigError,
};
use league_of_legends::numbers::{decimal_string, parse_i32, parse_i64, parse_u16, parse_u64};

#[test]
fn cookie_value_is_found_by_name() {
    assert_eq!(get_cookie_value("token=abc", "token"), Some("abc".to_string()));
    assert_eq!(
        get_cookie_value("theme=dark; token=abc; lang=en", "token"),
        Some("abc".to_string())
    );
    assert_eq!(get_cookie_value("theme=dark; lang=en", "token"), None);
    assert_eq!(get_cookie_value("", "token"), None);
}

#[test]
fn cookie_names_and_values_are_trimmed() {
    assert_eq!(get_cookie_value(" token =  abc\t", "token"), Some("abc".to_string()));
    assert_eq!(get_cookie_value("a=1;  token=x", "token"), Some("x".to_string()));
    assert_eq!(get_cookie_value("a=1; \ttoken\t=x", "token"), Some("x".to_string()));
}

#[test]
fn cookie_first_match_wins_and_empty_values_count() {
    assert_eq!(get_cookie_value("token=first; token=second", "token"), Some("first".to_string()));
    assert_eq!(get_cookie_value("token=", "token"), Some("".to_string()));
    assert_eq!(get_cookie_value("token", "token"), None);
    assert_eq!(get_cookie_value("token=a=b", "token"), Some("a=b".to_string()));
}

#[test]
fn token_extraction_prefers_the_bearer_header() {
    assert_eq!(
        extract_token(Some("Bearer shiny"), Some("token=cookie")),
        Some("shiny".to_string())
    );
    assert_eq!(
        extract_token(Some("Basic xyz"), Some("token=cookie")),
        Some("cookie".to_string())
    );
    assert_eq!(extract_token(None, Some("token=cookie")), Some("cookie".to_string()));
    assert_eq!(extract_token(Some("Bear"), None), None);
    assert_eq!(extract_token(None, None), None);
    assert_eq!(extract_token(Some("Bearer "), None), Some("".to_string()));
}

#[test]
fn decimal_parsing_is_exact() {
    assert_eq!(parse_u64("0"), Some(0));
    assert_eq!(parse_u64("42"), Some(42));
    assert_eq!(parse_u64("18446744073709551615"), Some(u64::MAX));
    assert_eq!(parse_u64("18446744073709551616"), None);
    assert_eq!(parse_u64(""), None);
    assert_eq!(parse_u64("12a"), None);
    assert_eq!(parse_u64("-1"), None);
    assert_eq!(parse_u64(" 1"), None);

    assert_eq!(parse_u16("8080"), Some(8080));
    assert_eq!(parse_u16("65535"), Some(65535));
    assert_eq!(parse_u16("65536"), None);

    assert_eq!(parse_i32("2147483647"), Some(i32::MAX));
    assert_eq!(parse_i32("2147483648"), None);

    assert_eq!(parse_i64("9223372036854775807"), Some(i64::MAX));
    assert_eq!(parse_i64("9223372036854775808"), None);
}

#[test]
fn decimal_rendering_is_exact() {
    assert_eq!(decimal_string(0), "0".to_string());
    assert_eq!(decimal_string(7), "7".to_string());
    assert_eq!(decimal_string(105), "105".to_string());
    assert_eq!(decimal_string(u64::MAX), "18446744073709551615".to_string());
}

#[test]
fn server_config_prefers_port_and_falls_back() {
    let cfg = server_config(Some("8080"), Some("9090"), None, None).expect("config builds");
    assert_eq!(cfg.port, 8080);
    assert_eq!(cfg.body_limit, 10);
    assert_eq!(cfg.timeout, 30);

    let cfg = server_config(None, Some("9090"), Some("20"), Some("5")).expect("config builds");
    assert_eq!(cfg.port, 9090);
    assert_eq!(cfg.body_limit, 20);
    assert_eq!(cfg.timeout, 5);

    assert_eq!(server_config(None, None, None, None), Err(ConfigError::MissingValue));
    assert_eq!(server_config(Some("eight"), None, None, None), Err(ConfigError::InvalidNumber));
    assert_eq!(server_config(Some("8080"), None, Some("ten"), None), Err(ConfigError::InvalidNumber));
}

#[test]
fn load_config_requires_url_and_secret() {
    let cfg = load_config(
        Some("8080"),
        None,
        None,
        None,
        Some("postgres://localhost/app".to_string()),
        Some("SECRET-REDACTED".to_string()),
    )
    .expect("config builds");
    assert_eq!(cfg.server.port, 8080);
    assert_eq!(cfg.database.url, "postgres://localhost/app".to_string());
    assert_eq!(cfg.secret, "SECRET-REDACTED".to_string());

    assert!(load_config(Some("8080"), None, None, None, None, Some("s".to_string())).is_err());
    assert!(load_config(Some("8080"), None, None, None, Some("u".to_string()), None).is_err());
}

#[test]
fn jwt_env_parses_the_ttl() {
    let env = jwt_env_from(Some("SECRET-REDACTED".to_string()), Some("7")).expect("env builds");
    assert_eq!(env.secret, "SECRET-REDACTED".to_string());
    assert_eq!(env.ttl, 7);

    assert!(jwt_env_from(None, Some("7")).is_err());
    assert!(jwt_env_from(Some("s".to_string()), None).is_err());
    assert!(jwt_env_from(Some("s".to_string()), Some("week")).is_err());
}

#[test]
fn cloudinary_env_needs_all_three_values() {
    let env = cloudinary_env_from(
        Some("cloud".to_string()),
        Some("key".to_string()),
        Some("SECRET-REDACTED".to_string()),
    )
    .expect("env builds");
    assert_eq!(env.cloud_name, "cloud".to_string());
    assert_eq!(env.api_key, "key".to_string());
    assert_eq!(env.api_secret, "SECRET-REDACTED".to_string());

    assert!(cloudinary_env_from(None, Some("k".to_string()), Some("s".to_string())).is_err());
    assert!(cloudinary_env_from(Some("c".to_string()), None, Some("s".to_string())).is_err());
    assert!(cloudinary_env_from(Some("c".to_string()), Some("k".to_string()), None).is_err());
}
