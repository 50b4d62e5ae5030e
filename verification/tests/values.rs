//! JSON values and texts.

use cmux::json::{json_from, parse, render, render_pretty, value_from, Json};
use cmux::text::{
    decimal_of, find, join, lines, parse_signed, parse_unsigned, path_join, split, split_once,
    strip_end, trim, with_extension,
};

#[test]
fn values_are_written_and_read_back() {
    let text = "{\"a\":[1,-2,\"x\\n\\u00e9\",null,true,0.5],\"b\":{\"c\":18446744073709551615}}";
    let j = parse(text).unwrap();
    assert_eq!(render(&j), "{\"a\":[1,-2,\"x\\né\",null,true,0.5],\"b\":{\"c\":18446744073709551615}}");
    assert_eq!(render(&parse(&render(&j)).unwrap()), render(&j));
    assert_eq!(render(&parse(&render_pretty(&j)).unwrap()), render(&j));
    assert_eq!(render_pretty(&parse("{\"a\":[1]}").unwrap()), "{\n  \"a\": [\n    1\n  ]\n}");
    assert!(parse("{\"a\":}").is_err());
    assert!(parse("").is_err());
}

#[test]
fn values_are_built() {
    let mut j = Json::object();
    j.set("n", Json::unsigned(7));
    j.set("m", Json::signed(-7));
    j.set("t", Json::text("x"));
    j.set("n", Json::unsigned(8));
    j.set("d", Json::double("0.25"));
    j.set("bad", Json::double("no number"));
    assert_eq!(render(&j), "{\"bad\":null,\"d\":0.25,\"m\":-7,\"n\":8,\"t\":\"x\"}");
    assert_eq!(j.field_unsigned("n"), Some(8));
    assert_eq!(j.field_unsigned("m"), None);
    assert_eq!(j.field_chars("t"), Some("x"));
    assert!(j.get("none").is_none());
}

#[test]
fn deep_values_are_not_read() {
    let deep = |n: usize| format!("{}{}", "[".repeat(n), "]".repeat(n));
    assert!(parse(&deep(127)).is_ok());
    assert!(parse(&deep(128)).is_err());
}

#[test]
fn values_of_serde_go_over_and_back() {
    let text = "{\"a\":[1,-2,0.5,null,true,\"x\"],\"b\":{}}";
    let value: serde_json::Value = serde_json::from_str(text).unwrap();
    let j = json_from(value.clone());
    assert_eq!(render(&j), text);
    assert_eq!(value_from(&j), value);
}

#[test]
fn texts_are_taken_apart() {
    assert_eq!(lines("a\r\nb\n\nc"), vec!["a", "b", "", "c"]);
    assert_eq!(lines("a\n"), vec!["a"]);
    assert!(lines("").is_empty());
    assert_eq!(split("a,,b", ','), vec!["a", "", "b"]);
    assert_eq!(split_once("k=v=w", '='), Some(("k".to_string(), "v=w".to_string())));
    assert_eq!(split_once("k", '='), None);
    assert_eq!(trim("\u{a0} x\t"), "x");
    assert_eq!(strip_end("a\r\r", '\r'), "a");
    assert_eq!(find("abcab", "ca"), Some(2));
    assert_eq!(find("abc", "x"), None);
    assert_eq!(join(&vec!["a".to_string(), "b".to_string()], ", "), "a, b");
}

#[test]
fn numbers_are_read_and_written() {
    assert_eq!(decimal_of(0), "0");
    assert_eq!(decimal_of(u64::MAX), "18446744073709551615");
    assert_eq!(parse_unsigned("+65535", 65535), Some(65535));
    assert_eq!(parse_unsigned("65536", 65535), None);
    assert_eq!(parse_unsigned("", 9), None);
    assert_eq!(parse_unsigned("1_0", 99), None);
    assert_eq!(parse_signed("-9223372036854775808"), Some(i64::MIN));
    assert_eq!(parse_signed("9223372036854775808"), None);
    assert_eq!(parse_signed("-"), None);
}

#[test]
fn paths_are_joined_and_extended() {
    assert_eq!(path_join("/a", "b"), "/a/b");
    assert_eq!(path_join("/a/", "b"), "/a/b");
    assert_eq!(path_join("", "b"), "b");
    assert_eq!(path_join("/a", "/b"), "/b");
    assert_eq!(with_extension("/a.b/c", "d"), "/a.b/c.d");
    assert_eq!(with_extension("/a/c.tar.gz", "d"), "/a/c.tar.d");
    for path in ["/a.b/c", "/a.b/c/", "a.b/./", "a.b/.", "x/..", "..", ".", "", "/", "/.", "./.",
        ".a", "..a", "x/..a", "..a/", "..a/.", ".a.b", "a..b", "a.", "a.é//", "x/../y.z", "/.../", "..."]
    {
        let std = std::path::Path::new(path);
        for extension in ["d", "json.tmp", ""] {
            let there = std.with_extension(extension);
            assert_eq!(with_extension(path, extension), there.to_str().unwrap(), "{path:?}");
        }
    }
}
