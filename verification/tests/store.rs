use nixdle::crypto::{generate_hmac, verify_hmac};
use nixdle::json::{parse_builtin_types, parse_json, print_json, Json};
use nixdle::lockfile::{Lockfile, SealedRecord};
use nixdle::theme::{BaseTheme, Color, Theme};

fn hex(bytes: &[u8]) -> String {
    bytes.iter().map(|b| format!("{:02x}", b)).collect()
}

fn played() -> Lockfile {
    let mut record = Lockfile::default();
    record.date = "2026-01-31".to_string();
    record.version = "0.3.0".to_string();
    record.record_attempt("lib.map".to_string());
    record.record_attempt("say \"hi\"\n\\ \u{1}\u{e9}\u{1f36a}".to_string());
    record.success = true;
    record
}

fn same(a: &Lockfile, b: &Lockfile) -> bool {
    a.date == b.date
        && a.success == b.success
        && a.attempts == b.attempts
        && a.attempted == b.attempted
        && a.version == b.version
}

#[test]
fn the_tag_is_hmac_sha256() {
    let tag = generate_hmac("key", "The quick brown fox jumps over the lazy dog");
    assert_eq!(hex(&tag), "f7bc83f430538424b13298e6aa6fb143ef4d59a14946175997479dbc2d1a3cd8");
    assert_eq!(generate_hmac("", "").len(), 32);
    assert_eq!(generate_hmac(&"k".repeat(200), "message").len(), 32);
    assert_ne!(generate_hmac("key", "message"), b"message".to_vec());
}

#[test]
fn only_the_tag_itself_verifies() {
    let tag = generate_hmac("2026-01-310.3.0abc", "contents");
    assert!(verify_hmac("2026-01-310.3.0abc", "contents", &tag));
    assert!(!verify_hmac("2026-02-010.3.0abc", "contents", &tag));
    assert!(!verify_hmac("2026-01-310.3.0abc", "content", &tag));
    assert!(!verify_hmac("2026-01-310.3.0abc", "contents", &tag[..31]));
    assert!(!verify_hmac("2026-01-310.3.0abc", "contents", &[]));
    let mut bent = tag.clone();
    bent[0] ^= 1;
    assert!(!verify_hmac("2026-01-310.3.0abc", "contents", &bent));
}

#[test]
fn a_fresh_record_is_empty() {
    let record = Lockfile::default();
    assert_eq!(record.date, "");
    assert!(!record.success);
    assert_eq!(record.attempts, 0);
    assert!(record.attempted.is_empty());
    assert_eq!(record.version, "");
}

#[test]
fn each_attempt_is_counted_and_kept() {
    let record = played();
    assert_eq!(record.attempts, 2);
    assert_eq!(record.attempted.len(), 2);
    assert_eq!(record.attempted[0], "lib.map");
}

#[test]
fn what_was_saved_opens_under_the_same_key() {
    let record = played();
    let sealed = record.save("secret");
    assert_eq!(sealed.signature, generate_hmac("secret", &sealed.contents));
    let back = Lockfile::open("secret", Some(sealed));
    assert!(same(&back, &record));
    let empty = Lockfile::default();
    assert!(same(&Lockfile::open("k", Some(empty.save("k"))), &empty));
}

#[test]
fn another_key_opens_a_fresh_record() {
    let sealed = played().save("2026-01-310.3.0abc");
    let back = Lockfile::open("2026-02-010.3.0abc", Some(sealed));
    assert!(same(&back, &Lockfile::default()));
}

#[test]
fn edited_contents_open_a_fresh_record() {
    let mut sealed = played().save("secret");
    sealed.contents = sealed.contents.replace("\"attempts\":2", "\"attempts\":1");
    assert!(same(&Lockfile::open("secret", Some(sealed)), &Lockfile::default()));
}

#[test]
fn nothing_kept_opens_a_fresh_record() {
    assert!(same(&Lockfile::open("secret", None), &Lockfile::default()));
}

#[test]
fn authentic_contents_that_are_no_record_open_a_fresh_record() {
    for contents in [
        "not json",
        "[]",
        "{}",
        "{\"date\":\"d\",\"success\":false,\"attempts\":1,\"attempted\":[],\"version\":\"v\"}",
        "{\"date\":\"d\",\"success\":false,\"attempts\":1,\"attempted\":[7],\"version\":\"v\"}",
        "{\"date\":\"d\",\"success\":0,\"attempts\":0,\"attempted\":[],\"version\":\"v\"}",
        "{\"date\":\"d\",\"success\":false,\"attempts\":-1,\"attempted\":[],\"version\":\"v\"}",
        "{\"date\":\"d\",\"success\":false,\"attempts\":0,\"attempted\":[]}",
    ] {
        let sealed = SealedRecord {
            contents: contents.to_string(),
            signature: generate_hmac("k", contents),
        };
        assert!(same(&Lockfile::open("k", Some(sealed)), &Lockfile::default()), "{}", contents);
    }
}

#[test]
fn authentic_contents_in_any_layout_open_as_the_record() {
    let contents = "{ \"version\": \"v\", \"date\": \"d\", \"extra\": null,\n \"attempted\": [\"a\", \"b\"], \"attempts\": 2, \"success\": true }";
    let sealed = SealedRecord {
        contents: contents.to_string(),
        signature: generate_hmac("k", contents),
    };
    let back = Lockfile::open("k", Some(sealed));
    assert_eq!(back.date, "d");
    assert_eq!(back.version, "v");
    assert!(back.success);
    assert_eq!(back.attempts, 2);
    assert_eq!(back.attempted, vec!["a".to_string(), "b".to_string()]);
}

#[test]
fn the_record_is_kept_as_compact_json() {
    let mut record = Lockfile::default();
    record.date = "2026-01-31".to_string();
    record.record_attempt("a\"b".to_string());
    assert_eq!(
        record.save("k").contents,
        "{\"attempted\":[\"a\\\"b\"],\"attempts\":1,\"date\":\"2026-01-31\",\"success\":false,\"version\":\"\"}"
    );
}

#[test]
fn the_document_of_a_record_reads_back() {
    let record = played();
    let tree = record.to_json();
    assert!(same(&Lockfile::from_json(&tree).unwrap(), &record));
    let text = print_json(&tree);
    let read = parse_json(&text).unwrap();
    assert_eq!(format!("{:?}", read), format!("{:?}", tree));
    assert!(Lockfile::from_json(&Json::Null).is_none());
}

#[test]
fn reads_and_writes_every_kind_of_value() {
    let text = "[null,true,18446744073709551615,-3,1.5,\"s\",[],{\"b\":1,\"a\":{}}]";
    let tree = parse_json(text).unwrap();
    match &tree {
        Json::Array(items) => {
            assert_eq!(items.len(), 8);
            assert!(matches!(items[0], Json::Null));
            assert!(matches!(items[1], Json::Bool(true)));
            assert!(matches!(items[2], Json::Number(u64::MAX)));
            assert!(matches!(&items[3], Json::Decimal(d) if d == "-3"));
            assert!(matches!(&items[4], Json::Decimal(d) if d == "1.5"));
            assert!(matches!(&items[5], Json::String(s) if s == "s"));
            assert!(matches!(&items[6], Json::Array(inner) if inner.is_empty()));
            match &items[7] {
                Json::Object(map) => {
                    let keys: Vec<&String> = map.keys().collect();
                    assert_eq!(keys, vec!["a", "b"]);
                }
                _ => panic!("not an object"),
            }
        }
        _ => panic!("not an array"),
    }
    assert_eq!(
        print_json(&tree),
        "[null,true,18446744073709551615,-3,1.5,\"s\",[],{\"a\":{},\"b\":1}]"
    );
    let fault = parse_json("{\"a\":").unwrap_err();
    assert!(fault.message.contains("line 1"));
}

#[test]
fn a_key_that_stands_twice_counts_once() {
    let contents = "{\"date\":\"old\",\"success\":false,\"attempts\":0,\"attempted\":[],\"version\":\"v\",\"date\":\"new\"}";
    let tree = parse_json(contents).unwrap();
    let record = Lockfile::from_json(&tree).unwrap();
    assert_eq!(record.date, "new");
    let table = parse_builtin_types(
        "{\"f\":{\"fn_type\":\"first\"},\"f\":{\"fn_type\":\"second\",\"fn_type\":\"third\"}}",
    )
    .unwrap();
    assert_eq!(table, vec![("f".to_string(), "third".to_string())]);
}

#[test]
fn reads_the_table_of_builtin_signatures() {
    let table = parse_builtin_types(
        "{\"map\":{\"fn_type\":\"map :: (a -> b) -> [a] -> [b]\",\"arity\":2},\
          \"add\":{\"fn_type\":\"add :: int -> int -> int\"},\
          \"odd\":{\"fn_type\":7},\"bare\":\"text\",\"none\":{}}",
    )
    .unwrap();
    assert_eq!(
        table,
        vec![
            ("add".to_string(), "add :: int -> int -> int".to_string()),
            ("map".to_string(), "map :: (a -> b) -> [a] -> [b]".to_string()),
        ]
    );
    assert!(parse_builtin_types("[1,2]").unwrap().is_empty());
    assert!(parse_builtin_types("null").unwrap().is_empty());
    assert!(parse_builtin_types("{").is_err());
    assert!(parse_builtin_types("").is_err());
}

#[test]
fn each_theme_swaps_the_colours_of_the_other() {
    assert_eq!(Theme::default(), Theme::Nix);
    assert_eq!(
        BaseTheme::from_theme(Theme::Nix),
        BaseTheme { base: Color::Blue, alt: Color::Magenta }
    );
    assert_eq!(
        BaseTheme::from_theme(Theme::Lix),
        BaseTheme { base: Color::Magenta, alt: Color::Blue }
    );
}
