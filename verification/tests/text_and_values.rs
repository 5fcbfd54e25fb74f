use clawrig::numbers::{decimal, hexadecimal, parse_i64, parse_u64, signed_decimal};
use clawrig::patterns::{find_all, group_text, replace_matches};
use clawrig::sort::{sort_by_key, Keyed};
use clawrig::text::{
    byte_len, char_count, contains, ends_with, join, lines, replace, split, starts_with, str_before, str_until_any,
    strip_prefix, take_chars, trim, trim_any, words,
};
use clawrig::value::{parse_json, parse_toml, Data, Fields};

fn show(d: &Data) -> String {
    match d {
        Data::Null => "null".to_string(),
        Data::Bool(b) => b.to_string(),
        Data::Uint(n) => n.to_string(),
        Data::Int(n) => n.to_string(),
        Data::Float(s) => s.clone(),
        Data::Str(s) => format!("{:?}", s),
        Data::List(v) => format!("[{}]", v.iter().map(show).collect::<Vec<_>>().join(",")),
        Data::Table(v) => {
            format!("{{{}}}", v.iter().map(|(k, x)| format!("{:?}:{}", k, show(x))).collect::<Vec<_>>().join(","))
        }
    }
}

#[test]
fn decimals_read_back() {
    for n in [0u64, 7, 10, 99, 1000, 18446744073709551615] {
        assert_eq!(decimal(n), n.to_string());
        assert_eq!(parse_u64(&decimal(n)), Some(n));
    }
    for n in [0i64, -1, 42, -9223372036854775808, 9223372036854775807] {
        assert_eq!(signed_decimal(n), n.to_string());
        assert_eq!(parse_i64(&signed_decimal(n)), Some(n));
    }
}

#[test]
fn numbers_that_are_none_are_refused() {
    assert_eq!(parse_u64(""), None);
    assert_eq!(parse_u64("+"), None);
    assert_eq!(parse_u64("+5"), Some(5));
    assert_eq!(parse_u64("-5"), None);
    assert_eq!(parse_u64("1x"), None);
    assert_eq!(parse_u64("18446744073709551616"), None);
    assert_eq!(parse_i64("-"), None);
    assert_eq!(parse_i64("-17"), Some(-17));
    assert_eq!(parse_i64("9223372036854775808"), None);
}

#[test]
fn hexadecimals() {
    assert_eq!(hexadecimal(0), "0");
    assert_eq!(hexadecimal(255), "ff");
    assert_eq!(hexadecimal(0xdead_beef), "deadbeef");
}

#[test]
fn text_pieces() {
    assert_eq!(trim("  a b\t\n"), "a b");
    assert_eq!(trim("\u{a0}x\u{3000}"), "x");
    assert_eq!(words("  a  b\tc "), vec!["a", "b", "c"]);
    assert_eq!(lines("a\r\nb\n\nc"), vec!["a", "b", "", "c"]);
    assert_eq!(lines("a\n"), vec!["a"]);
    assert!(lines("").is_empty());
    assert_eq!(split("a//b", '/'), vec!["a", "", "b"]);
    assert_eq!(join(&vec!["x".to_string(), "y".to_string()], ", "), "x, y");
    assert_eq!(replace("aXbXX", "X", "-"), "a-b--");
    assert_eq!(replace("aaa", "aa", "b"), "ba");
    assert_eq!(take_chars("h\u{e9}llo", 2), "h\u{e9}");
    assert_eq!(char_count("h\u{e9}"), 2);
    assert_eq!(byte_len("h\u{e9}"), 3);
    assert_eq!(strip_prefix("data: x", "data: ").as_deref(), Some("x"));
    assert_eq!(strip_prefix("x", "data: "), None);
    assert!(starts_with("abc", "ab") && !starts_with("ab", "abc"));
    assert!(ends_with("abc", "bc") && !ends_with("bc", "abc"));
    assert!(contains("abc", "") && contains("abc", "bc") && !contains("abc", "cb"));
    assert!(str_before("a", "b") && str_before("a", "ab") && !str_before("b", "a") && !str_before("a", "a"));
    assert_eq!(str_until_any("abc>=1", "<>="), "abc");
    assert_eq!(trim_any("\"'x'\"", "\"'"), "x");
}

#[test]
fn sorting_keeps_the_order_of_equal_keys() {
    let items = vec![
        Keyed { key: "b".to_string(), value: 1u32 },
        Keyed { key: "a".to_string(), value: 2 },
        Keyed { key: "b".to_string(), value: 3 },
        Keyed { key: "a".to_string(), value: 4 },
    ];
    let sorted: Vec<(String, u32)> = sort_by_key(items).into_iter().map(|k| (k.key, k.value)).collect();
    assert_eq!(
        sorted,
        vec![("a".to_string(), 2), ("a".to_string(), 4), ("b".to_string(), 1), ("b".to_string(), 3)]
    );
}

#[test]
fn patterns_find_and_replace() {
    let found = find_all("(\\w)=(\\d)?", "a=1 b= c=3");
    assert_eq!(found.len(), 3);
    assert_eq!(group_text(&found[0], 1), "a");
    assert_eq!(group_text(&found[0], 2), "1");
    assert_eq!(group_text(&found[1], 2), "");
    assert_eq!(group_text(&found[2], 9), "");
    assert!(find_all("(", "text").is_empty());
    assert_eq!(replace_matches("<[^>]+>", "<b>x</b>", " "), " x ");
}

#[test]
fn json_documents_are_read() {
    let doc = parse_json("{\"a\": [1, -2, true, null, \"x\"], \"b\": 1.5}").unwrap();
    assert_eq!(show(&doc), "{\"a\":[1,-2,true,null,\"x\"],\"b\":1.5}");
    assert_eq!(doc.list_at("a").unwrap().len(), 5);
    assert_eq!(doc.list_at("a").unwrap()[1].as_i64(), Some(-2));
    assert_eq!(doc.list_at("a").unwrap()[1].as_u64(), None);
    assert!(doc.get("c").is_none());
    assert_eq!(doc.text_at("c"), "");
    assert!(parse_json("{\"a\": }").is_none());
}

#[test]
fn toml_documents_are_read() {
    let doc = parse_toml("name = \"x\"\n[deps]\na = \"1\"\nn = 3\nok = true\nlist = [\"p\"]\n").unwrap();
    assert_eq!(doc.str_at("name"), Some("x"));
    let deps = doc.get("deps").unwrap();
    assert_eq!(deps.str_at("a"), Some("1"));
    assert_eq!(deps.i64_at("n"), Some(3));
    assert_eq!(deps.bool_at("ok"), Some(true));
    assert_eq!(deps.list_at("list").unwrap()[0].as_str(), Some("p"));
    assert!(parse_toml("= 1").is_none());
}

#[test]
fn fields_stand_in_the_order_of_writing() {
    let mut f = Fields::new();
    f.put_str("z", "1");
    f.put_uint("a", 2);
    f.put_bool("m", false);
    f.put("l", Data::list(vec![Data::text("q")]));
    let d = f.done();
    assert_eq!(show(&d), "{\"z\":\"1\",\"a\":2,\"m\":false,\"l\":[\"q\"]}");
    assert_eq!(d.u64_at("a"), Some(2));
    assert_eq!(show(&d.clone()), show(&d));
}
