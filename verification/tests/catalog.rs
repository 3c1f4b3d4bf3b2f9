use nixdle::function::{Content, Function, Meta, PrimopMeta, Type};
use nixdle::state::{dotted_path, parse_functions_filtered, trimmed, State};

fn path(segments: &[&str]) -> Vec<String> {
    segments.iter().map(|s| s.to_string()).collect()
}

fn record(segments: &[&str], signature: Option<&str>, description: Option<&str>) -> Function {
    Function {
        meta: Meta {
            path: path(segments),
            aliases: None,
            signature: signature.map(|s| s.to_string()),
            is_primop: None,
            primop_meta: None,
        },
        content: description.map(|d| Content { content: Some(d.to_string()) }),
    }
}

fn table() -> Vec<(String, String)> {
    vec![
        ("substring".to_string(), "substring :: int -> int -> string -> string".to_string()),
        ("broken".to_string(), "no types here".to_string()),
        ("substring".to_string(), "substring :: bool -> bool".to_string()),
    ]
}

#[test]
fn the_list_of_arguments_outranks_the_signature() {
    let mut f = record(&["builtins", "add"], Some("add :: int -> int -> int"), None);
    assert_eq!(f.get_args_count(), 2);
    f.meta.primop_meta = Some(PrimopMeta { args: Some(path(&["a", "b", "c"])) });
    assert_eq!(f.get_args_count(), 3);
    f.meta.primop_meta = Some(PrimopMeta { args: None });
    assert_eq!(f.get_args_count(), 2);
    f.meta.signature = None;
    assert_eq!(f.get_args_count(), 0);
}

#[test]
fn the_signature_outranks_the_table() {
    let f = record(&["builtins", "substring"], Some("substring :: path -> bool"), None);
    assert_eq!(f.get_types(&table()), Some((Type::Path, Type::Bool)));
    let g = record(&["builtins", "substring"], Some("unreadable"), None);
    assert_eq!(g.get_types(&table()), None);
}

#[test]
fn a_builtin_takes_its_types_from_the_first_entry_of_its_name() {
    let f = record(&["builtins", "substring"], None, None);
    assert_eq!(f.get_types(&table()), Some((Type::Int, Type::String)));
    assert_eq!(record(&["builtins", "missing"], None, None).get_types(&table()), None);
    assert_eq!(record(&["builtins", "broken"], None, None).get_types(&table()), None);
    assert_eq!(record(&["lib", "substring"], None, None).get_types(&table()), None);
    assert_eq!(record(&["builtins", "sub", "substring"], None, None).get_types(&table()), None);
}

#[test]
fn the_first_alias_with_types_in_the_table_decides() {
    let mut f = record(&["lib", "strings", "substring"], None, None);
    f.meta.aliases = Some(vec![path(&["lib", "substring"]), path(&["builtins", "substring"])]);
    assert_eq!(f.get_types(&table()), Some((Type::Int, Type::String)));
    f.meta.aliases = Some(vec![path(&["builtins", "missing"]), path(&["builtins", "substring"])]);
    assert_eq!(f.get_types(&table()), Some((Type::Int, Type::String)));
    f.meta.aliases = Some(vec![path(&["builtins", "broken"]), path(&["builtins", "substring"])]);
    assert_eq!(f.get_types(&table()), Some((Type::Int, Type::String)));
    f.meta.aliases = Some(vec![path(&["builtins", "missing"]), path(&["builtins", "broken"])]);
    assert_eq!(f.get_types(&table()), None);
    f.meta.aliases = Some(vec![path(&["builtins", "x", "substring"]), path(&["substring"])]);
    assert_eq!(f.get_types(&table()), None);
    f.meta.aliases = Some(vec![]);
    assert_eq!(f.get_types(&table()), None);
}

#[test]
fn a_later_alias_is_asked_where_the_table_lacks_an_earlier_one() {
    let mut f = record(&["lib", "x"], None, None);
    f.meta.aliases = Some(vec![path(&["builtins", "a"]), path(&["builtins", "b"])]);
    let table = vec![("b".to_string(), "b :: int -> bool".to_string())];
    assert_eq!(f.get_types(&table), Some((Type::Int, Type::Bool)));
    let both =
        vec![("b".to_string(), "b :: int -> bool".to_string()), ("a".to_string(), "a :: path -> any".to_string())];
    assert_eq!(f.get_types(&both), Some((Type::Path, Type::Any)));
}

#[test]
fn the_description_is_that_of_the_content() {
    assert_eq!(record(&["a"], None, Some("text")).get_description(), Some("text"));
    assert_eq!(record(&["a"], None, None).get_description(), None);
    let mut f = record(&["a"], None, Some("text"));
    f.content = Some(Content { content: None });
    assert_eq!(f.get_description(), None);
}

#[test]
fn joins_a_path_with_dots() {
    assert_eq!(dotted_path(&path(&["lib", "strings", "removeSuffix"])), "lib.strings.removeSuffix");
    assert_eq!(dotted_path(&path(&["map"])), "map");
    assert_eq!(dotted_path(&path(&[])), "");
    assert_eq!(dotted_path(&path(&["a", "", "b"])), "a..b");
}

#[test]
fn trims_white_space_at_both_ends() {
    assert_eq!(trimmed("  lib.map \t\n"), "lib.map");
    assert_eq!(trimmed("\u{2003}x y\u{85}"), "x y");
    assert_eq!(trimmed(" \n "), "");
    assert_eq!(trimmed("\u{200b}x"), "\u{200b}x");
}

#[test]
fn finds_by_full_path_or_by_the_name_of_a_two_segment_path() {
    let state = State::new(
        vec![
            record(&["lib", "strings", "flip"], None, None),
            record(&["lib", "flip"], Some("first"), None),
            record(&["builtins", "flip"], Some("second"), None),
            record(&["flip"], None, None),
        ],
        vec![],
    );
    assert_eq!(state.find_index("lib.strings.flip"), Some(0));
    assert_eq!(state.find_index("builtins.flip"), Some(2));
    assert_eq!(state.find_index("flip"), Some(1));
    assert_eq!(state.find_function("flip").unwrap().meta.signature.as_deref(), Some("first"));
    assert_eq!(state.find_index("strings.flip"), None);
    assert_eq!(state.find_index("strings"), None);
    assert!(state.find_function("lib.strings").is_none());
    assert_eq!(state.find_index(""), None);
}

#[test]
fn keeps_the_described_records_with_types_in_their_order() {
    let kept = parse_functions_filtered(
        &table(),
        vec![
            record(&["lib", "a"], Some("a :: int -> int"), Some("first")),
            record(&["lib", "b"], Some("a :: int -> int"), None),
            record(&["lib", "c"], None, Some("no types")),
            record(&["lib", "d"], Some("d :: int -> int"), Some(" \n ")),
            record(&["lib", "e"], Some("e :: int -> int"), Some("")),
            record(&["lib", "f"], Some("f :: int -> int"), Some(" ")),
            record(&["builtins", "substring"], None, Some("second")),
        ],
    );
    let paths: Vec<String> = kept.iter().map(|f| f.meta.path.join(".")).collect();
    assert_eq!(
        paths,
        vec![
            "lib.a".to_string(),
            "lib.d".to_string(),
            "lib.f".to_string(),
            "builtins.substring".to_string()
        ]
    );
}

#[test]
fn a_record_with_a_blank_description_is_kept_and_found_but_not_played() {
    let kept = parse_functions_filtered(
        &table(),
        vec![record(&["lib", "blank"], Some("blank :: int -> bool"), Some(" "))],
    );
    assert_eq!(kept.len(), 1);
    let state = State::new(kept, table());
    assert_eq!(state.find_index("lib.blank"), Some(0));
    assert!(!state.is_eligible(0));
    assert!(state.eligible_indices().is_empty());
    assert!(state.round_at(0).is_none());
}
