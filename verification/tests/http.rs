use regex::Regex;
use rum::http::{urldecode, Error, Path};

#[test]
fn test_path() {
    let path = "/hello?foo=bar&hello%3Dworld";
    let path = Path::parse(path).unwrap();
    assert_eq!(path.path(), "/hello");
    assert_eq!(path.query().get("foo"), Some(&"bar".to_string()));
}

#[test]
fn test_path_resource() {
    let path = "/hello/world?foo=bar";
    let path = Path::parse(path).unwrap();
    let resource = path.resource::<String>().unwrap().unwrap();
    assert_eq!(resource, "world".to_string());

    let path = "/hello/?foo=bar&hello=world";
    let path = Path::parse(path).unwrap();
    assert!(path.resource::<String>().is_none());

    let path = "/?foo=bar";
    let path = Path::parse(path).unwrap();
    assert!(path.resource::<String>().is_none());

    let path = "/hello/1";
    let path = Path::parse(path).unwrap();
    assert_eq!(path.resource::<i64>().unwrap().unwrap(), 1);
}

#[test]
fn test_ordering() {
    assert!("asd" < "asdf");
}

#[test]
fn test_regex() {
    let path = Path::parse("/api/orders/:id")
        .unwrap()
        .with_regex()
        .unwrap();
    let regex = Regex::new(path.regex_pattern()).expect("to be a valid regex");
    assert!(regex.find("/api/orders/1").is_some());
    assert!(regex.find("/api/orders").is_none());
    assert!(regex.find("/api/orders/hello/world").is_some());
}

#[test]
fn test_urldecode() {
    let url = "?foo=bar&hello=world";
    let decoded = urldecode(url);
    assert_eq!(decoded, "?foo=bar&hello=world");

    let url = "?foo=bar&hello=world%20&apples%3Doranges";
    let decoded = urldecode(url);
    assert_eq!(decoded, "?foo=bar&hello=world &apples=oranges");
}

#[test]
fn urldecode_plus_is_a_space() {
    assert_eq!(urldecode("a+b"), "a b");
}

#[test]
fn urldecode_takes_every_digit_after_the_percent_sign() {
    // Three digits number 0x20a, which is no byte: the escape stands for nothing.
    assert_eq!(urldecode("x%20ay"), "xy");
    assert_eq!(urldecode("x%20zy"), "x zy");
    assert_eq!(urldecode("%0041"), "A");
}

#[test]
fn urldecode_drops_a_percent_sign_without_digits() {
    assert_eq!(urldecode("100%"), "100");
    assert_eq!(urldecode("%zz"), "zz");
    assert_eq!(urldecode("%%41"), "A");
    assert_eq!(urldecode(""), "");
}

#[test]
fn urldecode_reads_a_byte_as_a_character() {
    assert_eq!(urldecode("%e9"), "\u{e9}");
    assert_eq!(urldecode("%FF"), "\u{ff}");
}

#[test]
fn path_without_a_leading_slash_gets_one() {
    let path = Path::parse("hello").unwrap();
    assert_eq!(path.base(), "/hello");
    assert_eq!(path.len(), 6);
    assert!(!path.is_root());
    assert_eq!(path.query().len(), 0);
}

#[test]
fn path_with_two_question_marks_is_malformed() {
    let result = Path::parse("/hello?a=b?c=d");
    assert!(matches!(
        result,
        Err(Error::MalformedRequest("path has malformed query"))
    ));
}

#[test]
fn path_query_stops_at_the_anchor() {
    let path = Path::parse("/hello?a=b&c=d#e=f").unwrap();
    assert_eq!(path.base(), "/hello");
    assert_eq!(path.query().get("a"), Some(&"b".to_string()));
    assert_eq!(path.query().get("c"), Some(&"d".to_string()));
    assert_eq!(path.query().get("e"), None);
    assert_eq!(path.query().len(), 2);
}

#[test]
fn path_without_a_query_keeps_its_anchor() {
    let path = Path::parse("/hello#there").unwrap();
    assert_eq!(path.base(), "/hello#there");
}

#[test]
fn path_query_skips_pieces_that_are_no_pair() {
    let path = Path::parse("/?a&b=1=2&c=3&=&d=x%20y&c=4").unwrap();
    assert_eq!(path.query().get("a"), None);
    assert_eq!(path.query().get("b"), None);
    assert_eq!(path.query().get("c"), Some(&"4".to_string()));
    assert_eq!(path.query().get(""), Some(&"".to_string()));
    assert_eq!(path.query().get("d"), Some(&"x y".to_string()));
    assert_eq!(path.query().len(), 3);
}

#[test]
fn path_default_is_the_root() {
    let path = Path::default();
    assert_eq!(path.base(), "/");
    assert!(path.is_root());
    assert!(path.resource::<String>().is_none());
}

#[test]
fn path_resource_reads_signed_integers() {
    let path = Path::parse("/orders/-42").unwrap();
    assert_eq!(path.resource::<i64>().unwrap().unwrap(), -42);
    let path = Path::parse("/orders/+7").unwrap();
    assert_eq!(path.resource::<i64>().unwrap().unwrap(), 7);
    let path = Path::parse("/orders/9223372036854775807").unwrap();
    assert_eq!(path.resource::<i64>().unwrap().unwrap(), i64::MAX);
    let path = Path::parse("/orders/-9223372036854775808").unwrap();
    assert_eq!(path.resource::<i64>().unwrap().unwrap(), i64::MIN);
}

#[test]
fn path_resource_refuses_what_is_no_integer() {
    for text in [
        "/orders/abc",
        "/orders/1a",
        "/orders/-",
        "/orders/9223372036854775808",
        "/orders/-9223372036854775809",
        "/orders/99999999999999999999999999999999999999999999",
    ] {
        let path = Path::parse(text).unwrap();
        assert!(matches!(
            path.resource::<i64>(),
            Some(Err(Error::MalformedRequest(
                "path parameter is not an integer"
            )))
        ));
    }
}

#[test]
fn route_pattern_is_written_out() {
    let route = Path::parse("/api/orders/:id/items/:item.json")
        .unwrap()
        .with_regex()
        .unwrap();
    assert_eq!(route.regex_pattern(), "^/api/orders/([^/]+)/items/([^/]+)");
    assert_eq!(route.parameter_count(), 2);
    assert_eq!(route.parameter_name(0), Some("id"));
    assert_eq!(route.parameter_name(1), Some("item.json"));
    assert_eq!(route.parameter_name(2), None);
    assert_eq!(route.path().base(), "/api/orders/:id/items/:item.json");
}

#[test]
fn route_pattern_escapes_what_a_pattern_reads_specially() {
    let route = Path::parse("/a.b/c+d").unwrap().with_regex().unwrap();
    assert_eq!(route.regex_pattern(), "^/a\\.b/c\\+d");
    let regex = Regex::new(route.regex_pattern()).unwrap();
    assert!(regex.find("/a.b/c+d").is_some());
    assert!(regex.find("/axb/c+d").is_none());
}

#[test]
fn route_parameter_without_a_name_is_refused() {
    let result = Path::parse("/api/:").unwrap().with_regex();
    assert!(matches!(
        result,
        Err(Error::MalformedRequest("path parameter has no name"))
    ));
}
