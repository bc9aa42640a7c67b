use distribution_lock::config::{parse_i64, parse_u16, MysqlStateOpts, RedisStateOpts};

#[test]
fn parses_ports() {
    assert_eq!(parse_u16("6379"), Some(6379));
    assert_eq!(parse_u16("+80"), Some(80));
    assert_eq!(parse_u16("0"), Some(0));
    assert_eq!(parse_u16("65535"), Some(65535));
    assert_eq!(parse_u16("65536"), None);
    assert_eq!(parse_u16(""), None);
    assert_eq!(parse_u16("+"), None);
    assert_eq!(parse_u16("-1"), None);
    assert_eq!(parse_u16("12a"), None);
    assert_eq!(parse_u16("99999999999999999999999"), None);
}

#[test]
fn parses_signed_numbers() {
    assert_eq!(parse_i64("0"), Some(0));
    assert_eq!(parse_i64("15"), Some(15));
    assert_eq!(parse_i64("-3"), Some(-3));
    assert_eq!(parse_i64("+3"), Some(3));
    assert_eq!(parse_i64("-9223372036854775808"), Some(i64::MIN));
    assert_eq!(parse_i64("9223372036854775807"), Some(i64::MAX));
    assert_eq!(parse_i64("9223372036854775808"), None);
    assert_eq!(parse_i64("-"), None);
    assert_eq!(parse_i64("--1"), None);
    assert_eq!(parse_i64(" 1"), None);
}

#[test]
fn parsing_agrees_with_std() {
    for s in ["1", "+1", "-1", "007", "65535", "65536", "", "x", "-0", "+-2", "9223372036854775807"] {
        assert_eq!(parse_u16(s), s.parse::<u16>().ok());
        assert_eq!(parse_i64(s), s.parse::<i64>().ok());
    }
}

#[test]
fn redis_dev_defaults() {
    let o = RedisStateOpts::dev_opts(None, None, None, None, None).unwrap();
    assert_eq!(o.host, "127.0.0.1");
    assert_eq!(o.port, 6379);
    assert_eq!(o.user, None);
    assert_eq!(o.pass, None);
    assert_eq!(o.index, 0);
}

#[test]
fn redis_dev_overrides() {
    let o = RedisStateOpts::dev_opts(
        Some("cache.local".to_string()),
        Some("6380".to_string()),
        Some("bob".to_string()),
        Some(String::new()),
        Some("3".to_string()),
    )
    .unwrap();
    assert_eq!(o.host, "cache.local");
    assert_eq!(o.port, 6380);
    assert_eq!(o.user, Some("bob".to_string()));
    assert_eq!(o.pass, None);
    assert_eq!(o.index, 3);
}

#[test]
fn redis_dev_bad_numbers() {
    assert!(RedisStateOpts::dev_opts(None, Some("port".to_string()), None, None, None).is_none());
    assert!(RedisStateOpts::dev_opts(None, None, None, None, Some("x".to_string())).is_none());
}

#[test]
fn mysql_dev_defaults() {
    let o = MysqlStateOpts::dev_opts(None, None, None, None, None).unwrap();
    assert_eq!(o.host, "127.0.0.1");
    assert_eq!(o.port, 3306);
    assert_eq!(o.user, "root");
    assert_eq!(o.pass, "");
    assert_eq!(o.name, "cross_copy");
    assert!(MysqlStateOpts::dev_opts(None, Some("70000".to_string()), None, None, None).is_none());
    let o = MysqlStateOpts::dev_opts(None, None, Some("app".to_string()), Some("pw".to_string()), Some("db".to_string())).unwrap();
    assert_eq!((o.user.as_str(), o.pass.as_str(), o.name.as_str()), ("app", "pw", "db"));
}
