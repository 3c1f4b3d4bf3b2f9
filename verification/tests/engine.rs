use nixdle::api::{AttemptMessage, Matches};
use nixdle::function::{Content, Function, Meta, PrimopMeta, Type};
use nixdle::game::Game;
use nixdle::state::{summarize, State, NEXT_CLUE_ATTEMPTS};
use nixdle::text::decimal_string;

fn path(segments: &[&str]) -> Vec<String> {
    segments.iter().map(|s| s.to_string()).collect()
}

fn record(segments: &[&str], signature: Option<&str>, description: Option<&str>) -> Function {
    Function {
        meta: Meta {
            path: path(segments),
            aliases: None,
            signature: signature.map(|s| s.to_string()),
            is_primop: None,
            primop_meta: None,
        },
        content: description.map(|d| Content { content: Some(d.to_string()) }),
    }
}

fn session() -> State {
    let mut substring = record(&["builtins", "substring"], None, Some("Cuts a string."));
    substring.meta.primop_meta = Some(PrimopMeta { args: Some(path(&["start", "len", "s"])) });
    let mut alias = record(&["lib", "removeSuffix"], Some("f :: string -> string"), None);
    alias.meta.aliases = Some(vec![path(&["lib", "strings", "removeSuffix"])]);
    let mut state = State::new(
        vec![
            record(
                &["lib", "strings", "removeSuffix"],
                Some("removeSuffix :: string -> string -> string"),
                Some("Removes a suffix."),
            ),
            substring,
            alias,
            record(&["lib", "untyped"], None, Some("Has no types.")),
            record(&["lib", "one"], Some("one :: string -> int"), None),
        ],
        vec![("substring".to_string(), "substring :: int -> int -> string -> string".to_string())],
    );
    state.game = Some(Game::new(
        "lib.strings.removeSuffix".to_string(),
        "Removes a suffix.".to_string(),
        2,
        Type::String,
        Type::String,
    ));
    state
}

fn same(a: &AttemptMessage, b: &AttemptMessage) -> bool {
    a.success == b.success
        && a.func == b.func
        && a.description == b.description
        && a.clues == b.clues
        && a.args == b.args
        && a.input == b.input
        && a.output == b.output
}

#[test]
fn the_full_path_of_the_target_wins() {
    let msg = session().attempt_game("lib.strings.removeSuffix", 0).unwrap();
    assert!(msg.success);
    assert_eq!(msg.func.as_deref(), Some("lib.strings.removeSuffix"));
    assert_eq!(msg.description.as_deref(), Some("Removes a suffix."));
    assert_eq!(msg.clues, vec!["lib".to_string(), "strings".to_string()]);
    assert_eq!(msg.args, Matches::JustRight);
    assert!(msg.input);
    assert!(msg.output);
}

#[test]
fn an_unknown_name_gets_no_feedback() {
    assert!(session().attempt_game("nonexistent.function", 0).is_none());
    assert!(session().attempt_game("removeSuffix.", 3).is_none());
    assert!(session().attempt_game("", 0).is_none());
}

#[test]
fn a_wrong_guess_is_compared_with_the_target() {
    let msg = session().attempt_game("builtins.substring", 0).unwrap();
    assert!(!msg.success);
    assert_eq!(msg.func, None);
    assert_eq!(msg.description, None);
    assert!(msg.clues.is_empty());
    assert_eq!(msg.args, Matches::TooHigh);
    assert!(!msg.input);
    assert!(msg.output);
}

#[test]
fn fewer_arguments_than_the_target_are_too_low() {
    let msg = session().attempt_game("lib.one", 0).unwrap();
    assert_eq!(msg.args, Matches::TooLow);
    assert!(msg.input);
    assert!(!msg.output);
}

#[test]
fn a_short_name_resolves_to_a_two_segment_path() {
    let msg = session().attempt_game("  substring \n", 0).unwrap();
    assert!(!msg.success);
    assert_eq!(msg.args, Matches::TooHigh);
}

#[test]
fn an_alias_of_the_target_wins() {
    let by_path = session().attempt_game("lib.removeSuffix", 7).unwrap();
    assert!(by_path.success);
    assert_eq!(by_path.clues, vec!["lib".to_string(), "strings".to_string()]);
    let by_name = session().attempt_game("removeSuffix", 7).unwrap();
    assert!(by_name.success);
    assert_eq!(by_name.func.as_deref(), Some("lib.strings.removeSuffix"));
}

#[test]
fn a_miss_without_types_gets_no_feedback() {
    assert!(session().attempt_game("lib.untyped", 0).is_none());
}

#[test]
fn one_more_clue_every_five_attempts() {
    let state = session();
    let shown = |attempts: usize| state.attempt_game("builtins.substring", attempts).unwrap().clues;
    assert!(shown(0).is_empty());
    assert!(shown(4).is_empty());
    assert_eq!(shown(5), vec!["lib".to_string()]);
    assert_eq!(shown(9), vec!["lib".to_string()]);
    assert_eq!(shown(10), vec!["lib".to_string(), "strings".to_string()]);
    assert_eq!(shown(15), vec!["lib".to_string(), "strings".to_string()]);
    assert_eq!(shown(usize::MAX), vec!["lib".to_string(), "strings".to_string()]);
}

#[test]
fn clues_never_shrink_as_attempts_grow() {
    let state = session();
    let mut before = 0;
    for attempts in 0..40 {
        let clues = state.attempt_game("builtins.substring", attempts).unwrap().clues;
        assert!(clues.len() >= before);
        assert!(clues.len() <= 2);
        assert_eq!(clues.len(), std::cmp::min(attempts / NEXT_CLUE_ATTEMPTS, 2));
        before = clues.len();
    }
}

#[test]
fn the_same_guess_gets_the_same_feedback() {
    let state = session();
    for guess in ["builtins.substring", "lib.strings.removeSuffix", "lib.one", "nothing"] {
        let first = state.attempt_game(guess, 6);
        let second = state.attempt_game(guess, 6);
        match (first, second) {
            (Some(a), Some(b)) => assert!(same(&a, &b)),
            (None, None) => {}
            _ => panic!("one evaluation answered and the other did not"),
        }
    }
}

#[test]
fn counts_of_arguments_are_compared_in_full() {
    let mut state = session();
    let names: Vec<String> = (0..258).map(|i| format!("a{}", i)).collect();
    state.functions[4].meta.primop_meta = Some(PrimopMeta { args: Some(names.clone()) });
    assert_eq!(state.functions[4].get_args_count(), 258);
    assert_eq!(state.attempt_game("lib.one", 0).unwrap().args, Matches::TooHigh);
    state.functions[0].meta.primop_meta = Some(PrimopMeta { args: Some(names) });
    let round = state.round_at(0).unwrap();
    assert_eq!(round.get_args_count(), 258);
    state.game = Some(round);
    assert_eq!(state.attempt_game("lib.one", 0).unwrap().args, Matches::JustRight);
    assert_eq!(state.attempt_game("builtins.substring", 0).unwrap().args, Matches::TooLow);
}

#[test]
fn the_round_keeps_what_it_was_made_of() {
    let game = Game::new("a.b.c".to_string(), "text".to_string(), 3, Type::Int, Type::Bool);
    assert_eq!(game.get_func(), "a.b.c");
    assert_eq!(game.get_func_name(), Some("c"));
    assert_eq!(game.get_clues(), vec!["a".to_string(), "b".to_string()]);
    assert_eq!(game.get_description(), "text");
    assert_eq!(game.get_args_count(), 3);
    assert_eq!(game.get_types(), (&Type::Int, &Type::Bool));
    assert_eq!(game.get_nix_commit(), "");
    let date = game.get_date();
    assert_eq!(date, game.get_date());
    assert_eq!(date.len(), 10);
    assert_eq!(date.matches('-').count(), 2);
}

#[test]
fn a_path_of_one_segment_holds_no_clue() {
    let game = Game::new("map".to_string(), String::new(), 0, Type::Any, Type::Any);
    assert!(game.get_clues().is_empty());
    assert_eq!(game.get_func_name(), Some("map"));
    let empty = Game::new(String::new(), String::new(), 0, Type::Any, Type::Any);
    assert!(empty.get_clues().is_empty());
    assert_eq!(empty.get_func_name(), Some(""));
}

#[test]
fn the_summary_is_the_first_paragraph_on_one_line() {
    assert_eq!(summarize("  One\nline.\n\nSecond paragraph.\n"), "One line.");
    assert_eq!(summarize("No break"), "No break");
    assert_eq!(summarize("\n\nLeading blank lines\n\nrest"), "Leading blank lines");
    assert_eq!(summarize("a\n \nb"), "a   b");
    assert_eq!(summarize("tail \n\n rest"), "tail");
    assert_eq!(summarize(" \n\t"), "");
}

#[test]
fn only_playable_records_are_drawn() {
    let mut state = session();
    assert_eq!(state.eligible_indices(), vec![0, 1]);
    assert!(state.is_eligible(0));
    assert!(!state.is_eligible(2));
    assert!(!state.is_eligible(3));
    for _ in 0..50 {
        state.init_random_game();
        let game = state.game.as_ref().unwrap();
        match game.get_func() {
            "lib.strings.removeSuffix" => {
                assert_eq!(game.get_description(), "Removes a suffix.");
                assert_eq!(game.get_args_count(), 2);
                assert_eq!(game.get_types(), (&Type::String, &Type::String));
            }
            "builtins.substring" => {
                assert_eq!(game.get_description(), "Cuts a string.");
                assert_eq!(game.get_args_count(), 3);
                assert_eq!(game.get_types(), (&Type::Int, &Type::String));
            }
            other => panic!("a record that cannot be played was drawn: {}", other),
        }
        assert_eq!(state.functions.len(), 5);
    }
}

#[test]
fn every_playable_record_can_be_drawn() {
    let mut state = session();
    let mut seen = vec![false, false];
    for _ in 0..400 {
        state.init_random_game();
        match state.game.as_ref().unwrap().get_func() {
            "lib.strings.removeSuffix" => seen[0] = true,
            _ => seen[1] = true,
        }
    }
    assert_eq!(seen, vec![true, true]);
}

#[test]
fn a_round_is_made_on_a_playable_record_only() {
    let state = session();
    assert!(state.round_at(0).is_some());
    assert_eq!(state.round_at(1).unwrap().get_clues(), vec!["builtins".to_string()]);
    assert!(state.round_at(2).is_none());
    assert!(state.round_at(3).is_none());
    assert!(state.round_at(5).is_none());
}

#[test]
fn the_start_message_tells_the_rules() {
    let state = session();
    let msg = state.start_game("http://host/attempt".to_string(), "1.2.3".to_string());
    assert_eq!(msg.attempt_url, "http://host/attempt");
    assert_eq!(msg.version, "1.2.3");
    assert_eq!(msg.possible_clues, 2);
    assert_eq!(msg.nix_commit, "");
    assert_eq!(msg.date, state.game.as_ref().unwrap().get_date());
    assert_eq!(
        msg.rules,
        "you can guess by full path (e.g. 'lib.replaceStrings')\nor by name (e.g. 'substring' for 'builtins.substring')\nafter each guess, you'll see how close you were to the actual function\nevery 5 attempts, you'll get a new path clue"
    );
}

#[test]
fn writes_numbers_in_decimal() {
    assert_eq!(decimal_string(0), "0");
    assert_eq!(decimal_string(5), "5");
    assert_eq!(decimal_string(10), "10");
    assert_eq!(decimal_string(4096), "4096");
    assert_eq!(decimal_string(usize::MAX), usize::MAX.to_string());
}

#[test]
fn each_outcome_reads_as_a_hint() {
    assert_eq!(Matches::TooLow.to_string(), "more");
    assert_eq!(Matches::TooHigh.to_string(), "less");
    assert_eq!(Matches::JustRight.to_string(), "just right :D");
    assert_eq!(Matches::check(1, 2), Matches::TooLow);
    assert_eq!(Matches::check(2, 1), Matches::TooHigh);
    assert_eq!(Matches::check(7, 7), Matches::JustRight);
    assert_eq!(Matches::check_counts(258, 2), Matches::TooHigh);
    assert_eq!(Matches::check_counts(2, 258), Matches::TooLow);
    assert_eq!(Matches::check_counts(usize::MAX, usize::MAX), Matches::JustRight);
    assert_eq!(
        Matches::check_types((&Type::Int, &Type::Bool), (&Type::Int, &Type::Int)),
        (true, false)
    );
}
