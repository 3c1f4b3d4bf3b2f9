//! What holds of the engine and of the store on every input.

use crate::api::AttemptMessageView;
use crate::crypto::signature_of;
use crate::function::{
    alias_types_from, arrow_token, builtin_types_at, is_builtin_path, declared_types, lemma_parse_type_lowercase, parse_signature, parse_type,
    scope_token, signature_args, FunctionView, Type,
};
use crate::game::{clues_of, segments, GameView};
use crate::json::json_parse;
use crate::lockfile::{
    fresh, opened, read_record, record_tree, stored_text, strings_tree, tree_strings,
    well_formed, LockfileView,
};
use crate::state::{
    answers, described, eligible, clue_count, dotted, evaluation, first_answer, hits, names_target, revealed,
    success_message,
};
use crate::text::{
    find, find_from, is_space, join, lemma_trim_len, lemma_trim_end_shape, lemma_trim_start_shape, lower_char,
    lowercase, trim_start, lemma_find_absent, lemma_find_at, lemma_find_none, lemma_trim_padded,
    occurs_at, split, trim,
};
use vstd::prelude::*;

verus! {

/// The feedback on a guess is a function of the session, of the guess and of
/// the number of earlier attempts: two evaluations of the same guess in the
/// same session give the same feedback.
pub proof fn lemma_evaluation_repeats(
    game: GameView,
    functions: Seq<FunctionView>,
    table: Seq<(Seq<char>, Seq<char>)>,
    input: Seq<char>,
    attempts: nat,
    first: Option<AttemptMessageView>,
    second: Option<AttemptMessageView>,
)
    requires
        first == evaluation(game, functions, table, input, attempts),
        second == evaluation(game, functions, table, input, attempts),
    ensures
        first == second,
{
}

/// A dotted path has at least one segment.
pub proof fn lemma_segments_nonempty(func: Seq<char>)
    ensures
        segments(func).len() >= 1,
{
    let dot = seq!['.'];
    match find(func, dot) {
        Some(i) => {
            if dot.len() > 0 && 0 <= i && i + dot.len() <= func.len() {
                let rest = split(func.subrange(i + dot.len(), func.len() as int), dot);
                assert(split(func, dot) == seq![func.subrange(0, i)] + rest);
            }
        },
        None => {},
    }
}

/// Clues are never taken back: after more attempts at least as many
/// segments are shown, those shown before among them, and never more than
/// all segments but the last.
pub proof fn lemma_clues_grow(func: Seq<char>, earlier: nat, later: nat)
    requires
        earlier < later,
    ensures
        revealed(func, earlier).len() <= revealed(func, later).len(),
        revealed(func, later).len() <= segments(func).len() - 1,
        revealed(func, earlier) == revealed(func, later).take(revealed(func, earlier).len() as int),
{
    lemma_segments_nonempty(func);
    let all = clues_of(func);
    assert(earlier / 5 <= later / 5) by (nonlinear_arith)
        requires
            earlier < later,
    ;
    let m = clue_count(earlier, all.len());
    let n = clue_count(later, all.len());
    assert(m <= n);
    assert(all.take(m as int) =~= all.take(n as int).take(m as int));
}

/// The first record that answers to a query, where there is one, does
/// answer to it, and no record before it does.
pub proof fn lemma_first_answer(functions: Seq<FunctionView>, query: Seq<char>, from: int)
    requires
        0 <= from,
    ensures
        match first_answer(functions, query, from) {
            Some(i) => from <= i < functions.len() && answers(functions[i], query) && forall|j: int|
                from <= j < i ==> !answers(#[trigger] functions[j], query),
            None => forall|j: int|
                from <= j < functions.len() ==> !answers(#[trigger] functions[j], query),
        },
    decreases functions.len() - from,
{
    if from < functions.len() && !answers(functions[from], query) {
        lemma_first_answer(functions, query, from + 1);
    }
}

/// Guessing the target's full dotted path wins, where a record of the
/// catalog answers to it.
pub proof fn lemma_full_path_wins(
    game: GameView,
    functions: Seq<FunctionView>,
    table: Seq<(Seq<char>, Seq<char>)>,
    input: Seq<char>,
    attempts: nat,
)
    requires
        trim(input) == game.func,
        exists|i: int| 0 <= i < functions.len() && answers(#[trigger] functions[i], game.func),
    ensures
        evaluation(game, functions, table, input, attempts) == Some(success_message(game)),
{
    lemma_first_answer(functions, game.func, 0);
}

/// Guessing a name that resolves to the target's record wins: the first
/// record that answers to the guess has the target's path.
pub proof fn lemma_resolving_name_wins(
    game: GameView,
    functions: Seq<FunctionView>,
    table: Seq<(Seq<char>, Seq<char>)>,
    input: Seq<char>,
    attempts: nat,
)
    requires
        first_answer(functions, trim(input), 0) matches Some(i) && dotted(functions[i].path)
            == game.func,
    ensures
        evaluation(game, functions, table, input, attempts) == Some(success_message(game)),
{
}

/// Guessing an alias of the target wins: the first record that answers to
/// the guess lists the target's path among its aliases.
pub proof fn lemma_alias_wins(
    game: GameView,
    functions: Seq<FunctionView>,
    table: Seq<(Seq<char>, Seq<char>)>,
    input: Seq<char>,
    attempts: nat,
)
    requires
        first_answer(functions, trim(input), 0) matches Some(i) && functions[i].aliases matches Some(
            aliases,
        ) && names_target(aliases, game.func),
    ensures
        evaluation(game, functions, table, input, attempts) == Some(success_message(game)),
{
}

/// The types that a list of aliases gives are those of the first alias
/// under `builtins` to which the table gives types; there are none exactly
/// where the table gives types to no alias under `builtins`.
pub proof fn lemma_alias_types(
    aliases: Seq<Seq<Seq<char>>>,
    table: Seq<(Seq<char>, Seq<char>)>,
    from: int,
)
    requires
        0 <= from,
    ensures
        match alias_types_from(aliases, table, from) {
            Some(types) => exists|k: int|
                from <= k < aliases.len() && is_builtin_path(#[trigger] aliases[k])
                    && builtin_types_at(aliases[k], table) == Some(types) && forall|j: int|
                    from <= j < k ==> !(is_builtin_path(#[trigger] aliases[j]) && builtin_types_at(
                        aliases[j],
                        table,
                    ) is Some),
            None => forall|j: int|
                from <= j < aliases.len() ==> !(is_builtin_path(#[trigger] aliases[j])
                    && builtin_types_at(aliases[j], table) is Some),
        },
    decreases aliases.len() - from,
{
    if from < aliases.len() {
        if is_builtin_path(aliases[from]) && builtin_types_at(aliases[from], table) is Some {
            assert(is_builtin_path(aliases[from]));
        } else {
            lemma_alias_types(aliases, table, from + 1);
        }
    }
}

/// A record that can be played belongs in the catalog: a description that
/// is more than white space is not empty.
pub proof fn lemma_eligible_is_described(f: FunctionView, table: Seq<(Seq<char>, Seq<char>)>)
    requires
        eligible(f, table),
    ensures
        described(f, table),
{
    lemma_trim_len(f.description->0);
}

/// The target is told on success only: feedback says that the guess won
/// exactly where the guess hit the target, and feedback on a miss names
/// neither the target nor its description and shows no more than the clues
/// that are due.
pub proof fn lemma_secret_kept(
    game: GameView,
    functions: Seq<FunctionView>,
    table: Seq<(Seq<char>, Seq<char>)>,
    input: Seq<char>,
    attempts: nat,
)
    ensures
        evaluation(game, functions, table, input, attempts) matches Some(message) ==> {
            &&& first_answer(functions, trim(input), 0) matches Some(i)
            &&& message.success == hits(game.func, trim(input), functions[i])
            &&& !message.success ==> message.func is None && message.description is None
                && message.clues == revealed(game.func, attempts)
        },
{
}

/// Whatever was kept, the record that opens is well formed.
pub proof fn lemma_opened_well_formed(key: Seq<char>, stored: Option<(Seq<char>, Seq<u8>)>)
    ensures
        well_formed(opened(key, stored)),
{
}

/// The document that stands for a well-formed record stands for that record
/// and no other.
pub proof fn lemma_record_tree_reads_back(v: LockfileView)
    requires
        well_formed(v),
        v.attempts <= usize::MAX,
    ensures
        read_record(record_tree(v)) == Some(v),
{
    reveal_strlit("attempted");
    reveal_strlit("attempts");
    reveal_strlit("date");
    reveal_strlit("success");
    reveal_strlit("version");
    reveal_with_fuel(crate::json::member_from, 6);
    let members = record_tree(v)->Object_0;
    assert("attempted"@ != "attempts"@) by {
        assert("attempted"@.len() != "attempts"@.len());
    }
    assert("date"@ != "attempted"@) by {
        assert("date"@.len() != "attempted"@.len());
    }
    assert("date"@ != "attempts"@) by {
        assert("date"@.len() != "attempts"@.len());
    }
    assert("success"@ != "attempted"@) by {
        assert("success"@.len() != "attempted"@.len());
    }
    assert("success"@ != "attempts"@) by {
        assert("success"@.len() != "attempts"@.len());
    }
    assert("success"@ != "date"@) by {
        assert("success"@.len() != "date"@.len());
    }
    assert("version"@ != "attempted"@) by {
        assert("version"@.len() != "attempted"@.len());
    }
    assert("version"@ != "attempts"@) by {
        assert("version"@.len() != "attempts"@.len());
    }
    assert("version"@ != "date"@) by {
        assert("version"@.len() != "date"@.len());
    }
    assert("version"@ != "success"@) by {
        assert("version"@[0] != "success"@[0]);
    }
    let items = strings_tree(v.attempted);
    assert(tree_strings(items) == Some(v.attempted)) by {
        assert(tree_strings(items)->0 =~= v.attempted);
    }
}

/// What was saved under a key is what opens under that key: opening the
/// kept text and tag of a well-formed record gives the record back, where
/// the parser reads the text as the document that was written.
pub proof fn lemma_save_then_open(v: LockfileView, key: Seq<char>)
    requires
        well_formed(v),
        v.attempts <= usize::MAX,
        json_parse(stored_text(v)) == Some(record_tree(v)),
    ensures
        opened(key, Some((stored_text(v), signature_of(key, stored_text(v))))) == v,
{
    lemma_record_tree_reads_back(v);
}

/// What was saved under one key does not open under another: where the
/// other key gives the contents another tag, opening gives the fresh record.
pub proof fn lemma_foreign_key_resets(contents: Seq<char>, key: Seq<char>, other: Seq<char>)
    requires
        signature_of(other, contents) != signature_of(key, contents),
    ensures
        opened(other, Some((contents, signature_of(key, contents)))) == fresh(),
{
}

/// Contents whose tag was not made with the key never come back: opening
/// gives the fresh record, whatever the contents say.
pub proof fn lemma_tampering_resets(contents: Seq<char>, signature: Seq<u8>, key: Seq<char>)
    requires
        signature != signature_of(key, contents),
    ensures
        opened(key, Some((contents, signature))) == fresh(),
{
}

/// A signature written as a name, ` :: `, a type, ` -> ` and a type.
pub open spec fn plain_signature(name: Seq<char>, a: Seq<char>, b: Seq<char>) -> Seq<char> {
    name + seq![' ', ':', ':', ' '] + a + seq![' ', '-', '>', ' '] + b
}

/// A token denotes what it denotes without the white space around it.
pub proof fn lemma_parse_type_padded(pre: Seq<char>, s: Seq<char>, post: Seq<char>)
    requires
        forall|j: int| 0 <= j < pre.len() ==> is_space(#[trigger] pre[j]),
        forall|j: int| 0 <= j < post.len() ==> is_space(#[trigger] post[j]),
    ensures
        parse_type(pre + s + post) == parse_type(s),
{
    lemma_trim_padded(pre, s, post);
}

/// A signature of the form `name :: A -> B` has the types that `A` and `B`
/// denote where both denote one, and none otherwise. The name is free of
/// `::`, and `A` and `B` are free of `->`.
pub proof fn lemma_plain_signature(name: Seq<char>, a: Seq<char>, b: Seq<char>)
    requires
        find(name, scope_token()) is None,
        find(a, arrow_token()) is None,
        find(b, arrow_token()) is None,
    ensures
        parse_signature(plain_signature(name, a, b)) == match (parse_type(a), parse_type(b)) {
            (Some(input), Some(output)) => Some((input, output)),
            _ => None::<(Type, Type)>,
        },
{
    let scope = scope_token();
    let arrow = arrow_token();
    let sig = plain_signature(name, a, b);
    let p = name.len() as int + 1;
    lemma_find_none(name, scope, 0);
    lemma_find_none(a, arrow, 0);
    lemma_find_none(b, arrow, 0);
    assert(sig.subrange(p, p + 2) =~= scope);
    assert forall|i: int| 0 <= i < p implies !occurs_at(sig, scope, i) by {
        if occurs_at(sig, scope, i) {
            let here = sig.subrange(i, i + 2);
            assert(here[0] == sig[i] && here[1] == sig[i + 1]);
            if i + 2 <= name.len() {
                assert(name.subrange(i, i + 2) =~= here);
                assert(occurs_at(name, scope, i));
            } else if i + 1 == name.len() {
                assert(sig[i + 1] == ' ');
            } else {
                assert(sig[i] == ' ');
            }
        }
    }
    lemma_find_at(sig, scope, 0, p);
    let rhs = sig.subrange(p + 2, sig.len() as int);
    assert(rhs =~= seq![' '] + a + seq![' ', '-', '>', ' '] + b);
    let q = a.len() as int + 2;
    assert(rhs.subrange(q, q + 2) =~= arrow);
    assert forall|i: int| 0 <= i < q implies !occurs_at(rhs, arrow, i) by {
        if occurs_at(rhs, arrow, i) {
            let here = rhs.subrange(i, i + 2);
            assert(here[0] == rhs[i] && here[1] == rhs[i + 1]);
            if i == 0 {
                assert(rhs[0] == ' ');
            } else if i + 1 <= a.len() {
                assert(a.subrange(i - 1, i + 1) =~= here);
                assert(occurs_at(a, arrow, i - 1));
            } else if i == a.len() {
                assert(rhs[i + 1] == ' ');
            } else {
                assert(rhs[i] == ' ');
            }
        }
    }
    lemma_find_at(rhs, arrow, 0, q);
    let first = rhs.subrange(0, q);
    let rest = rhs.subrange(q + 2, rhs.len() as int);
    assert(first =~= seq![' '] + a + seq![' ']);
    assert(rest =~= seq![' '] + b + Seq::<char>::empty());
    assert forall|i: int| 0 <= i implies !occurs_at(rest, arrow, i) by {
        if occurs_at(rest, arrow, i) {
            let here = rest.subrange(i, i + 2);
            assert(here[0] == rest[i] && here[1] == rest[i + 1]);
            if i == 0 {
                assert(rest[0] == ' ');
            } else {
                assert(b.subrange(i - 1, i + 1) =~= here);
                assert(occurs_at(b, arrow, i - 1));
            }
        }
    }
    lemma_find_absent(rest, arrow, 0);
    assert(split(rest, arrow) == seq![rest]);
    let parts = split(rhs, arrow);
    assert(parts == seq![first] + seq![rest]);
    assert(declared_types(sig) == Some(parts));
    assert(parts.len() == 2);
    assert(parts.first() == first);
    assert(parts.last() == rest);
    lemma_parse_type_padded(seq![' '], a, seq![' ']);
    lemma_parse_type_padded(seq![' '], b, Seq::<char>::empty());
}

/// A joined sequence of at least two parts is its first part, the
/// separator and the rest, joined.
pub proof fn lemma_join_first(parts: Seq<Seq<char>>, sep: Seq<char>)
    requires
        parts.len() >= 2,
    ensures
        join(parts, sep) == parts.first() + sep + join(parts.drop_first(), sep),
    decreases parts.len(),
{
    let front = parts.drop_last();
    let tail = parts.drop_first();
    if parts.len() == 2 {
        assert(front =~= seq![parts[0]]);
        assert(tail =~= seq![parts[1]]);
        assert(join(front, sep) == parts[0]);
        assert(join(tail, sep) == parts[1]);
    } else {
        lemma_join_first(front, sep);
        assert(front.drop_first() =~= tail.drop_last());
        assert(front.first() == parts.first());
        assert(tail.last() == parts.last());
        assert(join(parts, sep) =~= parts.first() + sep + (join(tail.drop_last(), sep) + sep
            + tail.last()));
    }
}

/// Splitting a dotted path gives its segments back, where there is at least
/// one segment and no segment holds a dot.
pub proof fn lemma_segments_of_dotted(path: Seq<Seq<char>>)
    requires
        path.len() >= 1,
        forall|k: int| 0 <= k < path.len() ==> !(#[trigger] path[k]).contains('.'),
    ensures
        segments(dotted(path)) == path,
    decreases path.len(),
{
    let dot = seq!['.'];
    let head = path.first();
    if path.len() == 1 {
        assert(dotted(path) == head);
        assert forall|i: int| 0 <= i implies !occurs_at(head, dot, i) by {
            if occurs_at(head, dot, i) {
                assert(head.subrange(i, i + 1)[0] == '.');
                assert(head[i] == '.');
            }
        }
        lemma_find_absent(head, dot, 0);
        assert(split(head, dot) == seq![head]);
        assert(seq![head] =~= path);
    } else {
        let tail = path.drop_first();
        lemma_join_first(path, dot);
        let rest = dotted(tail);
        let whole = head + dot + rest;
        assert(dotted(path) == whole);
        let p = head.len() as int;
        assert(whole.subrange(p, p + 1) =~= dot);
        assert forall|i: int| 0 <= i < p implies !occurs_at(whole, dot, i) by {
            if occurs_at(whole, dot, i) {
                assert(whole.subrange(i, i + 1)[0] == '.');
                assert(head[i] == '.');
            }
        }
        lemma_find_at(whole, dot, 0, p);
        assert(whole.subrange(0, p) =~= head);
        assert(whole.subrange(p + 1, whole.len() as int) =~= rest);
        assert forall|k: int| 0 <= k < tail.len() implies !(#[trigger] tail[k]).contains('.') by {
            assert(tail[k] == path[k + 1]);
        }
        lemma_segments_of_dotted(tail);
        assert(split(whole, dot) == seq![head] + split(rest, dot));
        assert(seq![head] + tail =~= path);
    }
}

/// The clues of a round are the segments of its record's path but the last,
/// where no segment holds a dot.
pub proof fn lemma_clues_of_path(path: Seq<Seq<char>>)
    requires
        path.len() >= 1,
        forall|k: int| 0 <= k < path.len() ==> !(#[trigger] path[k]).contains('.'),
    ensures
        clues_of(dotted(path)) == path.drop_last(),
{
    lemma_segments_of_dotted(path);
}

/// A pattern of characters that are neither letters nor white space: the
/// tokens of a signature are such patterns.
pub open spec fn is_token(pat: Seq<char>) -> bool {
    &&& pat.len() > 0
    &&& forall|k: int|
        0 <= k < pat.len() ==> !is_space(#[trigger] pat[k]) && !('A' <= pat[k] <= 'Z') && !('a'
            <= pat[k] <= 'z')
}

/// Each piece in lower case.
pub open spec fn lowercase_each(parts: Seq<Seq<char>>) -> Seq<Seq<char>> {
    Seq::new(parts.len(), |k: int| lowercase(parts[k]))
}

/// The first place from `from` on at which `pat` stands, where there is
/// one, holds `pat`, and no place before it does.
pub proof fn lemma_find_first(s: Seq<char>, pat: Seq<char>, from: int)
    requires
        0 <= from,
    ensures
        find_from(s, pat, from) matches Some(place) ==> from <= place && occurs_at(s, pat, place)
            && forall|i: int| from <= i < place ==> !occurs_at(s, pat, i),
    decreases s.len() + 1 - from,
{
    if from + pat.len() <= s.len() && !occurs_at(s, pat, from) {
        lemma_find_first(s, pat, from + 1);
    }
}

/// A token stands in a text where it stands in the text's lower-case form.
pub proof fn lemma_occurs_lowercase(s: Seq<char>, pat: Seq<char>, i: int)
    requires
        is_token(pat),
    ensures
        occurs_at(lowercase(s), pat, i) == occurs_at(s, pat, i),
{
    let low = lowercase(s);
    if 0 <= i && i + pat.len() <= s.len() {
        let a = s.subrange(i, i + pat.len());
        let b = low.subrange(i, i + pat.len());
        if a == pat {
            assert forall|k: int| 0 <= k < pat.len() implies b[k] == pat[k] by {
                assert(a[k] == s[i + k]);
                assert(b[k] == lower_char(s[i + k]));
            }
            assert(b =~= pat);
        }
        if b == pat {
            assert forall|k: int| 0 <= k < pat.len() implies a[k] == pat[k] by {
                assert(a[k] == s[i + k]);
                assert(b[k] == lower_char(s[i + k]));
            }
            assert(a =~= pat);
        }
    }
}

/// A token is found in a text where it is found in the text's lower-case
/// form.
pub proof fn lemma_find_lowercase(s: Seq<char>, pat: Seq<char>, from: int)
    requires
        is_token(pat),
    ensures
        find_from(lowercase(s), pat, from) == find_from(s, pat, from),
    decreases s.len() + 1 - from,
{
    lemma_occurs_lowercase(s, pat, from);
    if !(from < 0 || from + pat.len() > s.len()) && !occurs_at(s, pat, from) {
        lemma_find_lowercase(s, pat, from + 1);
    }
}

/// Splitting at a token and lower-casing can be done in either order.
pub proof fn lemma_split_lowercase(s: Seq<char>, pat: Seq<char>)
    requires
        is_token(pat),
    ensures
        split(lowercase(s), pat) == lowercase_each(split(s, pat)),
    decreases s.len(),
{
    let low = lowercase(s);
    lemma_find_lowercase(s, pat, 0);
    lemma_find_first(s, pat, 0);
    match find(s, pat) {
        Some(i) => {
            let rest = s.subrange(i + pat.len(), s.len() as int);
            lemma_split_lowercase(rest, pat);
            assert(low.subrange(0, i) =~= lowercase(s.subrange(0, i)));
            assert(low.subrange(i + pat.len(), low.len() as int) =~= lowercase(rest));
            assert(split(s, pat) == seq![s.subrange(0, i)] + split(rest, pat));
            assert(split(low, pat) == seq![low.subrange(0, i)] + split(lowercase(rest), pat));
            assert(split(low, pat) =~= lowercase_each(split(s, pat)));
        },
        None => {
            assert(split(low, pat) =~= lowercase_each(split(s, pat)));
        },
    }
}

/// The tokens of a signature are tokens.
pub proof fn lemma_signature_tokens()
    ensures
        is_token(scope_token()),
        is_token(arrow_token()),
{
}

/// The case of letters does not change what a signature declares.
pub proof fn lemma_signature_lowercase(sig: Seq<char>)
    ensures
        parse_signature(lowercase(sig)) == parse_signature(sig),
        signature_args(lowercase(sig)) == signature_args(sig),
{
    lemma_signature_tokens();
    let low = lowercase(sig);
    lemma_find_lowercase(sig, scope_token(), 0);
    lemma_find_first(sig, scope_token(), 0);
    match find(sig, scope_token()) {
        Some(i) => {
            let rhs = sig.subrange(i + 2, sig.len() as int);
            assert(low.subrange(i + 2, low.len() as int) =~= lowercase(rhs));
            lemma_split_lowercase(rhs, arrow_token());
            let parts = split(rhs, arrow_token());
            assert(declared_types(low) == Some(lowercase_each(parts)));
            if parts.len() >= 2 {
                lemma_parse_type_lowercase(parts.first());
                lemma_parse_type_lowercase(parts.last());
            }
        },
        None => {},
    }
}

/// A token stands within a text at the place at which it stands in the
/// text with white space around it.
pub proof fn lemma_occurs_padded(pre: Seq<char>, s: Seq<char>, post: Seq<char>, pat: Seq<char>, i: int)
    requires
        is_token(pat),
        forall|j: int| 0 <= j < pre.len() ==> is_space(#[trigger] pre[j]),
        forall|j: int| 0 <= j < post.len() ==> is_space(#[trigger] post[j]),
    ensures
        occurs_at(pre + s + post, pat, i) == occurs_at(s, pat, i - pre.len()),
{
    let whole = pre + s + post;
    let n = pat.len() as int;
    let j = i - pre.len();
    if occurs_at(whole, pat, i) {
        let here = whole.subrange(i, i + n);
        assert(here[0] == whole[i]);
        assert(here[n - 1] == whole[i + n - 1]);
        if i < pre.len() {
            assert(whole[i] == pre[i]);
        }
        if i + n - 1 >= pre.len() + s.len() {
            assert(whole[i + n - 1] == post[i + n - 1 - pre.len() - s.len()]);
        }
        assert(s.subrange(j, j + n) =~= here);
    }
    if occurs_at(s, pat, j) {
        assert(whole.subrange(i, i + n) =~= s.subrange(j, j + n));
    }
}

/// A token is found within a text where it is found in the text with white
/// space around it, at the same place of the text.
pub proof fn lemma_find_padded(pre: Seq<char>, s: Seq<char>, post: Seq<char>, pat: Seq<char>)
    requires
        is_token(pat),
        forall|j: int| 0 <= j < pre.len() ==> is_space(#[trigger] pre[j]),
        forall|j: int| 0 <= j < post.len() ==> is_space(#[trigger] post[j]),
    ensures
        find(pre + s + post, pat) == match find(s, pat) {
            Some(place) => Some(place + pre.len()),
            None => None,
        },
{
    let whole = pre + s + post;
    lemma_find_first(s, pat, 0);
    assert forall|i: int| occurs_at(whole, pat, i) == occurs_at(s, pat, i - pre.len()) by {
        lemma_occurs_padded(pre, s, post, pat, i);
    }
    match find(s, pat) {
        Some(place) => {
            lemma_find_at(whole, pat, 0, place + pre.len());
        },
        None => {
            lemma_find_none(s, pat, 0);
            lemma_find_absent(whole, pat, 0);
        },
    }
}

/// White space after a text goes to the last of its pieces.
pub proof fn lemma_split_padded(s: Seq<char>, post: Seq<char>, pat: Seq<char>)
    requires
        is_token(pat),
        forall|j: int| 0 <= j < post.len() ==> is_space(#[trigger] post[j]),
    ensures
        split(s + post, pat) == split(s, pat).drop_last().push(split(s, pat).last() + post),
        split(s, pat).len() >= 1,
    decreases s.len(),
{
    let none = Seq::<char>::empty();
    let whole = s + post;
    assert(none + s + post =~= whole);
    lemma_find_padded(none, s, post, pat);
    lemma_find_first(s, pat, 0);
    match find(s, pat) {
        Some(i) => {
            let rest = s.subrange(i + pat.len(), s.len() as int);
            lemma_split_padded(rest, post, pat);
            assert(whole.subrange(0, i) =~= s.subrange(0, i));
            assert(whole.subrange(i + pat.len(), whole.len() as int) =~= rest + post);
            let head = seq![s.subrange(0, i)];
            let tail = split(rest, pat);
            assert(split(s, pat) == head + tail);
            assert(split(whole, pat) == head + split(rest + post, pat));
            assert((head + tail).drop_last() =~= head + tail.drop_last());
            assert((head + tail).last() == tail.last());
            assert(head + tail.drop_last().push(tail.last() + post) =~= (head
                + tail.drop_last()).push(tail.last() + post));
        },
        None => {
            assert(split(s, pat) == seq![s]);
            assert(split(whole, pat) == seq![whole]);
            assert(seq![s].drop_last().push(s + post) =~= seq![whole]);
        },
    }
}

/// White space around a signature does not change what it declares.
pub proof fn lemma_signature_padded(pre: Seq<char>, s: Seq<char>, post: Seq<char>)
    requires
        forall|j: int| 0 <= j < pre.len() ==> is_space(#[trigger] pre[j]),
        forall|j: int| 0 <= j < post.len() ==> is_space(#[trigger] post[j]),
    ensures
        parse_signature(pre + s + post) == parse_signature(s),
        signature_args(pre + s + post) == signature_args(s),
{
    lemma_signature_tokens();
    let whole = pre + s + post;
    lemma_find_padded(pre, s, post, scope_token());
    lemma_find_first(s, scope_token(), 0);
    match find(s, scope_token()) {
        Some(i) => {
            let rhs = s.subrange(i + 2, s.len() as int);
            assert(whole.subrange(i + pre.len() + 2, whole.len() as int) =~= rhs + post);
            lemma_split_padded(rhs, post, arrow_token());
            let parts = split(rhs, arrow_token());
            let padded = split(rhs + post, arrow_token());
            assert(declared_types(whole) == Some(padded));
            assert(padded.len() == parts.len());
            if parts.len() >= 2 {
                assert(padded.first() == parts.first());
                assert(padded.last() == parts.last() + post);
                assert(Seq::<char>::empty() + parts.last() + post =~= parts.last() + post);
                lemma_parse_type_padded(Seq::<char>::empty(), parts.last(), post);
            }
        },
        None => {},
    }
}

/// A text is its trimmed form with white space around it.
pub proof fn lemma_trim_splits(s: Seq<char>) -> (r: (Seq<char>, Seq<char>))
    ensures
        s == r.0 + trim(s) + r.1,
        forall|j: int| 0 <= j < r.0.len() ==> is_space(#[trigger] r.0[j]),
        forall|j: int| 0 <= j < r.1.len() ==> is_space(#[trigger] r.1[j]),
{
    let a = lemma_trim_start_shape(s);
    let t = trim_start(s);
    let e = lemma_trim_end_shape(t);
    let pre = s.subrange(0, a);
    let post = t.subrange(e, t.len() as int);
    assert forall|j: int| 0 <= j < post.len() implies is_space(#[trigger] post[j]) by {
        assert(post[j] == t[e + j]);
    }
    assert(s =~= pre + trim(s) + post);
    (pre, post)
}

/// Trimming a signature and lower-casing it first does not change what it
/// declares: the types and the number of arguments are those of the
/// signature as it was written.
pub proof fn lemma_signature_normal_form(sig: Seq<char>)
    ensures
        parse_signature(lowercase(trim(sig))) == parse_signature(sig),
        signature_args(lowercase(trim(sig))) == signature_args(sig),
{
    let (pre, post) = lemma_trim_splits(sig);
    lemma_signature_padded(pre, trim(sig), post);
    lemma_signature_lowercase(trim(sig));
}

} // verus!
