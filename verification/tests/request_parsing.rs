use std::collections::HashMap;

use myimage::comm::get_value;
use myimage::handle::{is_api_request, static_file_name, static_target};
use myimage::parse::{body_decodes_ok, decode_value, parse_body, parse_content_type, parse_url, KvPair, Params};

fn as_map(p: &Params) -> HashMap<String, String> {
    p.entries().into_iter().collect()
}

#[test]
fn test_parse_body() {
    let body = "a=1&b=2&c=3&d=&e=5&=";
    let data = as_map(&parse_body(body));
    let mut map = HashMap::new();
    map.insert("a".to_string(), "1".to_string());
    map.insert("b".to_string(), "2".to_string());
    map.insert("c".to_string(), "3".to_string());
    map.insert("d".to_string(), "".to_string());
    map.insert("e".to_string(), "5".to_string());
    assert_eq!(data, map);

    let body = "";
    let data = as_map(&parse_body(body));
    assert_eq!(data, HashMap::new());
}

#[test]
fn test_parse_url() {
    let url = "http://www.example.com/index.html?a=1&b=2&c=3&d=&e=5&=";
    let (path, query) = parse_url(url, "");
    assert_eq!(path, "http://www.example.com/index.html");
    assert_eq!(query, "a=1&b=2&c=3&d=&e=5&=");

    let url = "http://www.example.com/api/getAll";
    let (path, query) = parse_url(url, "");
    assert_eq!(path, "http://www.example.com/api/getAll");
    assert_eq!(query, "");
}

#[test]
fn parse_url_keeps_body_without_query() {
    let (path, query) = parse_url("/api/upload", "name=x");
    assert_eq!(path, "/api/upload");
    assert_eq!(query, "name=x");
}

#[test]
fn parse_url_stops_query_at_second_mark() {
    let (path, query) = parse_url("/a?b=1?c=2", "ignored");
    assert_eq!(path, "/a");
    assert_eq!(query, "b=1");
    let (path, query) = parse_url("/a?", "body");
    assert_eq!(path, "/a");
    assert_eq!(query, "");
}

#[test]
fn parse_body_decodes_values_and_keeps_last() {
    let p = parse_body("name=hello%20world&x=1&x=2&plus=a+b&noeq&=skip");
    assert_eq!(p.get("name").unwrap(), "hello world");
    assert_eq!(p.get("x").unwrap(), "2");
    assert_eq!(p.get("plus").unwrap(), "a+b");
    assert!(p.get("noeq").is_none());
    assert!(p.get("").is_none());
    assert_eq!(as_map(&p).len(), 3);
}

#[test]
fn parse_body_splits_at_first_equals() {
    let p = parse_body("a=b=c");
    assert_eq!(p.get("a").unwrap(), "b=c");
}

#[test]
fn body_that_does_not_decode_is_flagged() {
    assert!(body_decodes_ok("a=%41&b=%2"));
    assert!(!body_decodes_ok("a=%ff"));
    assert!(body_decodes_ok("=%ff"));
    assert!(body_decodes_ok("%ff"));
}

#[test]
fn decode_value_percent_decodes() {
    assert_eq!(decode_value("%E4%BD%A0%e5%a5%bd").unwrap(), "你好");
    assert_eq!(decode_value("100%").unwrap(), "100%");
    assert_eq!(decode_value("%zz%4").unwrap(), "%zz%4");
    assert!(decode_value("%c3%28").is_none());
}

#[test]
fn kv_pair_needs_equals() {
    let p = KvPair::from_str("k=v").ok().unwrap();
    assert_eq!(p.key(), "k");
    assert_eq!(p.value(), "v");
    assert_eq!(KvPair::from_str("kv").err().unwrap(), "kv");
}

#[test]
fn get_value_reads_or_falls_back() {
    let p = parse_body("quality=75&size=+12&neg=-3&big=99999999999&type=image/jpeg");
    assert_eq!(get_value(&p, "quality", 40i32), 75);
    assert_eq!(get_value(&p, "missing", 40i32), 40);
    assert_eq!(get_value(&p, "size", 0usize), 12);
    assert_eq!(get_value(&p, "neg", 0usize), 0);
    assert_eq!(get_value(&p, "neg", 0i32), -3);
    assert_eq!(get_value(&p, "big", 7i32), 7);
    assert_eq!(get_value(&p, "big", 7i64), 99999999999);
    assert_eq!(get_value(&p, "type", "png".to_string()), "image/jpeg");
    assert_eq!(get_value(&p, "nope", "png".to_string()), "png");
}

#[test]
fn content_types_by_extension() {
    assert_eq!(parse_content_type("index.html"), "text/html; charset=UTF-8");
    assert_eq!(parse_content_type("a/b.css"), "text/css; charset=UTF-8");
    assert_eq!(parse_content_type("app.js"), "text/javascript; charset=UTF-8");
    assert_eq!(parse_content_type("x.json"), "application/json; charset=UTF-8");
    assert_eq!(parse_content_type("p.jpeg"), "image/jpeg");
    assert_eq!(parse_content_type("p.jpg"), "image/jpeg");
    assert_eq!(parse_content_type("p.webp"), "image/webp");
    assert_eq!(parse_content_type("v.mp4"), "video/mp4");
    assert_eq!(parse_content_type("noext"), "text/html; charset=UTF-8");
    assert_eq!(parse_content_type(""), "text/html; charset=UTF-8");
}

#[test]
fn api_requests_and_static_files() {
    assert!(is_api_request("/api/getAll"));
    assert!(is_api_request("//x/api/test"));
    assert!(!is_api_request("/index.html"));
    assert_eq!(static_file_name("/"), "./web/index.html");
    assert_eq!(static_file_name("//css/a.css"), "./web/css/a.css");
    let (name, ct) = static_target("/css/a.css", true);
    assert_eq!(name, "./web/css/a.css");
    assert_eq!(ct, "text/css; charset=UTF-8");
    let (name, ct) = static_target("/missing.png", false);
    assert_eq!(name, "./web/404.html");
    assert_eq!(ct, "text/html; charset=utf-8");
}
