use us_stock_api::config::Config;
use us_stock_api::text::{format_u16, parse_u16};

#[test]
fn database_url() {
    let c = Config::new(Some("debug".to_string()), "db.local", 3306, "reader", "pw", "us_stock", "k".to_string());
    assert_eq!(c.db_url, "mysql://reader:pw@db.local:3306/us_stock");
    assert_eq!(c.log_level, "debug");
    assert_eq!(c.jwt_secret, "k");
}

#[test]
fn default_log_level_is_info() {
    let c = Config::new(None, "h", 1, "u", "p", "n", String::new());
    assert_eq!(c.log_level, "info");
    assert_eq!(c.db_url, "mysql://u:p@h:1/n");
}

#[test]
fn log_filter() {
    let c = Config::new(Some("warn".to_string()), "h", 0, "u", "p", "n", String::new());
    assert_eq!(c.log_filter(), "sqlx=warn,warn");
}

#[test]
fn port_parsing_follows_std() {
    let samples = [
        "3306", "+80", "0080", "0", "65535", "65536", "", "+", "-1", " 1", "1 ", "1a", "++1", "99999999999", "٣",
    ];
    for s in samples.iter() {
        assert_eq!(parse_u16(s), s.parse::<u16>().ok(), "{:?}", s);
    }
}

#[test]
fn port_formatting() {
    assert_eq!(format_u16(0), "0");
    assert_eq!(format_u16(7), "7");
    assert_eq!(format_u16(3306), "3306");
    assert_eq!(format_u16(65535), "65535");
}

#[test]
fn port_round_trip() {
    for n in 0..=u16::MAX {
        let text = format_u16(n);
        assert_eq!(text, n.to_string());
        assert_eq!(parse_u16(&text), Some(n));
    }
}
