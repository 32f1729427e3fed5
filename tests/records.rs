use multithreaded_tcp_http::config::{pick_host, AppConfig, AssetsConfig, BaseConfig, ConfigError, DbConfig, ServerConfig, config_port};
use multithreaded_tcp_http::coreerr::CoreErr;
use multithreaded_tcp_http::database::{create_table, RecordError, Token, User};
use multithreaded_tcp_http::helpers::{parse_ipv4, vec_to_arr};
use multithreaded_tcp_http::text::{decimal, parse_unsigned, split_on, words_of};

fn s(x: &str) -> String {
    x.to_string()
}

fn pairs(v: &[(&str, &str)]) -> Vec<(String, String)> {
    v.iter().map(|(a, b)| (s(a), s(b))).collect()
}

fn user_params() -> Vec<(String, String)> {
    pairs(&[
        ("role_id", "2"), ("username", "bob"), ("email", "b@x"), ("password", "pw"), ("config", "{}"),
        ("active", "true"), ("remember_token", "rt"), ("avatar", "a.png"), ("created_at", "c"), ("updated_at", "u"),
    ])
}

#[test]
fn user_from_params_and_text() {
    let u = User::from_params(&user_params()).unwrap();
    assert_eq!(u.role_id, 2);
    assert!(u.active);
    assert_eq!(u.username, "bob");
    assert_eq!(User::user_to_string(&u), "\r\n2\r\nbob\r\nb@x\r\npw\r\n{}\r\ntrue\r\nrt\r\na.png\r\nc\r\nu\r\n");
    assert_eq!(User::users_to_string(&vec![u.clone(), u.clone()]), format!("{0}{0}", User::user_to_string(&u)));
    let mut p = user_params();
    p[5].1 = s("yes");
    assert!(!User::from_params(&p).unwrap().active);
    p[0].1 = s("x");
    assert_eq!(User::from_params(&p).err(), Some(RecordError::BadId));
    p.remove(3);
    assert_eq!(User::from_params(&p).err(), Some(RecordError::MissingField));
}

#[test]
fn token_from_params_and_text() {
    let p = pairs(&[
        ("user_id", "7"), ("token_type", "bearer"), ("access_token", "at"), ("refresh_token", "rt"),
        ("token_expire", "e"), ("created_at", "c"), ("updated_at", "u"),
    ]);
    let t = Token::from_params(&p).unwrap();
    assert_eq!(t.user_id, 7);
    assert_eq!(Token::token_to_string(&t), "\r\n7\r\nbearer\r\nat\r\nrt\r\ne\r\nc\r\nu\r\n");
    assert_eq!(Token::tokens_to_string(&vec![]), "");
    assert_eq!(Token::from_params(&p[1..].to_vec()).err(), Some(RecordError::MissingField));
}

#[test]
fn create_table_statement() {
    let cols = vec![s("id"), s("user_id"), s("ip"), s("created_at"), s("updated_at")];
    assert_eq!(
        create_table("tokens", &cols),
        "CREATE TABLE tokens (id BIGINT AUTO_INCREMENT PRIMARY KEY, user_id BIGINT, ip VARCHAR(255) NOT NULL, created_at TIMESTAMP NOT NULL DEFAULT CURRENT_TIMESTAMP(), updated_at TIMESTAMP NOT NULL DEFAULT CURRENT_TIMESTAMP())"
    );
    assert_eq!(create_table("t", &vec![]), "CREATE TABLE t ()");
}

#[test]
fn server_config_from_values() {
    let c = ServerConfig::new_cfg(s("10.0.0.5"), " 31500 ", "31501", "GET,POST,OPTIONS,HEAD").unwrap();
    assert_eq!(c.port1, 31500);
    assert_eq!(c.port2, 31501);
    assert_eq!(c.request_methods, vec![s("GET"), s("POST"), s("OPTIONS"), s("HEAD")]);
    assert_eq!(c.host, "10.0.0.5");
    assert_eq!(ServerConfig::new_cfg(s(""), "x", "1", "GET").err(), Some(ConfigError::BadPort));
    assert_eq!(config_port("\t3306\n"), Ok(3306));
    let db = DbConfig::new_cfg(s("h"), "3306", s("u"), s("p"), s("d")).unwrap();
    assert_eq!(db.port, 3306);
    assert!(DbConfig::new_cfg(s("h"), "99999", s("u"), s("p"), s("d")).is_err());
    let assets = AssetsConfig::new_cfg(s("html/"), s("log"), s("logs.log"));
    assert_eq!(assets.log_file(), "log/logs.log");
    let app = AppConfig::new_cfg(BaseConfig::new_cfg(s("HTTP/1.1")), c, db, assets);
    assert_eq!(app.base.http_protocol, "HTTP/1.1");
}

#[test]
fn host_from_interfaces() {
    let ifs = pairs(&[("lo", "127.0.0.1"), ("eth0", "10.0.0.2"), ("enp0s3", "10.0.0.3")]);
    assert_eq!(pick_host(&ifs), "10.0.0.2");
    assert_eq!(pick_host(&pairs(&[("lo", "127.0.0.1")])), "");
}

#[test]
fn ipv4_addresses() {
    assert_eq!(parse_ipv4("127.0.0.1"), Some([127, 0, 0, 1]));
    assert_eq!(parse_ipv4("255.255.255.255"), Some([255, 255, 255, 255]));
    assert_eq!(parse_ipv4("256.0.0.1"), None);
    assert_eq!(parse_ipv4("1.2.3"), None);
    assert_eq!(parse_ipv4("1.2.3.4.5"), None);
    assert_eq!(parse_ipv4("a.b.c.d"), None);
    assert_eq!(vec_to_arr(&vec![1, 2, 3, 4]), [1, 2, 3, 4]);
}

#[test]
fn numbers_and_splitting() {
    assert_eq!(decimal(0), "0");
    assert_eq!(decimal(1234567890), "1234567890");
    assert_eq!(decimal(u64::MAX), "18446744073709551615");
    assert_eq!(parse_unsigned("18446744073709551615", u64::MAX), Some(u64::MAX));
    assert_eq!(parse_unsigned("18446744073709551616", u64::MAX), None);
    assert_eq!(parse_unsigned("256", 255), None);
    assert_eq!(split_on("a,,b", ','), vec![s("a"), s(""), s("b")]);
    assert_eq!(split_on("", ','), vec![s("")]);
}

#[test]
fn core_error_text() {
    let e = CoreErr { errmsg: s("No target host ip specified"), errno: 1 };
    assert_eq!(e.describe(), "CoreErr: Errno: 1 | Errmsg: No target host ip specified");
}

#[test]
fn words_of_lines() {
    assert_eq!(words_of(" GET\t/a  b \r"), vec![s("GET"), s("/a"), s("b")]);
    assert_eq!(words_of("   "), Vec::<String>::new());
    assert_eq!(words_of("x"), vec![s("x")]);
}

#[test]
fn unicode_white_space_is_trimmed() {
    assert_eq!(config_port("\u{a0}80\u{3000}"), Ok(80));
    assert_eq!(config_port("\u{2003}\t8080\u{85}\n"), Ok(8080));
    assert_eq!(config_port(" \u{200b}80"), Err(ConfigError::BadPort));
}
