//! The catalog and the engine that evaluates guesses against the target.

use crate::api::{compare_counts, AttemptMessage, AttemptMessageView, Matches, StartMessage};
use crate::function::{args_count, resolve_types, Function, FunctionView, Type};
use crate::game::{clues_of, Game, GameView};
use crate::text::{
    chars_of, decimal, decimal_string, find, find_in, join, same_text, string_of, trim,
    trim_range, unwrap_lines,
};
use rand::seq::IndexedRandom;
use vstd::prelude::*;
use vstd::string::StringExecFns;

verus! {

/// The number of evaluated guesses after which one more segment of the
/// target's path is shown.
pub const NEXT_CLUE_ATTEMPTS: usize = 5;

/// Everything that a session needs.
#[derive(Clone, Debug)]
pub struct State {
    /// The round, once it has been made.
    pub game: Option<Game>,
    /// The catalog.
    pub functions: Vec<Function>,
    /// The signatures of the built-in functions, by name.
    pub builtin_types: Vec<(String, String)>,
}

/// The catalog as the rules of the game see it.
pub open spec fn catalog(functions: Seq<Function>) -> Seq<FunctionView> {
    Seq::new(functions.len(), |i: int| functions[i]@)
}

/// The segments of a path, with a dot between each two neighbours.
pub open spec fn dotted(path: Seq<Seq<char>>) -> Seq<char> {
    join(path, seq!['.'])
}

/// Whether a record answers to a query. A query that holds a dot names the
/// whole dotted path. Any other query is a short name: that of a record whose
/// path has two segments, the second of them the query.
pub open spec fn answers(f: FunctionView, query: Seq<char>) -> bool {
    if query.contains('.') {
        dotted(f.path) == query
    } else {
        f.path.len() == 2 && f.path[1] == query
    }
}

/// The index of the first record at or after `from` that answers to `query`.
pub open spec fn first_answer(functions: Seq<FunctionView>, query: Seq<char>, from: int) -> Option<
    int,
>
    decreases functions.len() - from,
{
    if from < 0 || from >= functions.len() {
        None
    } else if answers(functions[from], query) {
        Some(from)
    } else {
        first_answer(functions, query, from + 1)
    }
}

/// Whether one of the paths, written with dots, is `target`.
pub open spec fn names_target(paths: Seq<Seq<Seq<char>>>, target: Seq<char>) -> bool {
    exists|k: int| 0 <= k < paths.len() && dotted(#[trigger] paths[k]) == target
}

/// Whether a guess that reads `input` and resolves to the record `guess` has
/// found the function at `target`: the input is the target's path, or the
/// record's own path is, or one of the record's aliases is.
pub open spec fn hits(target: Seq<char>, input: Seq<char>, guess: FunctionView) -> bool {
    ||| input == target
    ||| dotted(guess.path) == target
    ||| (guess.aliases matches Some(aliases) && names_target(aliases, target))
}

/// The number of clues that are due after `attempts` evaluated guesses, of
/// `available` clues in all.
pub open spec fn clue_count(attempts: nat, available: nat) -> nat {
    let due = attempts / (NEXT_CLUE_ATTEMPTS as nat);
    if due < available {
        due
    } else {
        available
    }
}

/// The clues that are shown after `attempts` evaluated guesses.
pub open spec fn revealed(func: Seq<char>, attempts: nat) -> Seq<Seq<char>> {
    clues_of(func).take(clue_count(attempts, clues_of(func).len()) as int)
}

/// The feedback on a guess that found the target.
pub open spec fn success_message(game: GameView) -> AttemptMessageView {
    AttemptMessageView {
        success: true,
        func: Some(game.func),
        description: Some(game.description),
        clues: clues_of(game.func),
        args: Matches::JustRight,
        input: true,
        output: true,
    }
}

/// The feedback on a guess that resolved to another function, whose types
/// are `types`.
pub open spec fn miss_message(
    game: GameView,
    guess: FunctionView,
    types: (Type, Type),
    attempts: nat,
) -> AttemptMessageView {
    AttemptMessageView {
        success: false,
        func: None,
        description: None,
        clues: revealed(game.func, attempts),
        args: compare_counts(args_count(guess) as int, game.args as int),
        input: types.0 == game.input,
        output: types.1 == game.output,
    }
}

/// The feedback on the guess `input`, made after `attempts` evaluated
/// guesses. There is none where the trimmed input answers to no record, or
/// where it misses the target and the types of the record it resolved to
/// cannot be resolved.
pub open spec fn evaluation(
    game: GameView,
    functions: Seq<FunctionView>,
    table: Seq<(Seq<char>, Seq<char>)>,
    input: Seq<char>,
    attempts: nat,
) -> Option<AttemptMessageView> {
    let query = trim(input);
    match first_answer(functions, query, 0) {
        None => None,
        Some(i) => if hits(game.func, query, functions[i]) {
            Some(success_message(game))
        } else {
            match resolve_types(functions[i], table) {
                Some(types) => Some(miss_message(game, functions[i], types, attempts)),
                None => None,
            }
        },
    }
}

/// The dotted form of a path.
pub fn dotted_path(path: &Vec<String>) -> (r: String)
    ensures
        r@ == dotted(path.deep_view()),
{
    let ghost parts = path.deep_view();
    let mut r = String::new();
    let mut i: usize = 0;
    while i < path.len()
        invariant
            0 <= i <= path.len(),
            parts == path.deep_view(),
            r@ == dotted(parts.take(i as int)),
        decreases path.len() - i,
    {
        proof {
            assert(parts.take(i + 1).drop_last() =~= parts.take(i as int));
            assert(parts.take(i + 1).last() == path[i as int]@);
        }
        if i > 0 {
            r.push('.');
        }
        r.append(path[i].as_str());
        proof {
            if i > 0 {
                assert(r@ =~= dotted(parts.take(i as int)) + seq!['.'] + path[i as int]@);
            } else {
                assert(r@ =~= path[i as int]@);
            }
        }
        i = i + 1;
    }
    assert(parts.take(path.len() as int) =~= parts);
    r
}

/// Whether a record answers to a query, `by_path` telling whether the query
/// holds a dot.
fn record_answers(f: &Function, query: &str, by_path: bool) -> (r: bool)
    requires
        by_path == query@.contains('.'),
    ensures
        r == answers(f@, query@),
{
    if by_path {
        let full = dotted_path(&f.meta.path);
        same_text(full.as_str(), query)
    } else {
        f.meta.path.len() == 2 && same_text(f.meta.path[1].as_str(), query)
    }
}

/// Whether a string holds a dot.
fn holds_dot(s: &str) -> (r: bool)
    ensures
        r == s@.contains('.'),
{
    let v = chars_of(s);
    let mut i: usize = 0;
    while i < v.len()
        invariant
            0 <= i <= v.len(),
            v@ == s@,
            forall|j: int| 0 <= j < i ==> v@[j] != '.',
        decreases v.len() - i,
    {
        if v[i] == '.' {
            assert(s@[i as int] == '.');
            return true;
        }
        i = i + 1;
    }
    false
}

impl State {
    /// A session on a catalog, with no round yet.
    pub fn new(functions: Vec<Function>, builtin_types: Vec<(String, String)>) -> (r: State)
        ensures
            r.game is None,
            r.functions == functions,
            r.builtin_types == builtin_types,
    {
        State { game: None, functions, builtin_types }
    }

    /// The index of the first record that answers to `query`.
    pub fn find_index(&self, query: &str) -> (r: Option<usize>)
        ensures
            match first_answer(catalog(self.functions@), query@, 0) {
                Some(i) => r == Some(i as usize) && 0 <= i < self.functions.len(),
                None => r is None,
            },
    {
        let by_path = holds_dot(query);
        let ghost cat = catalog(self.functions@);
        let mut i: usize = 0;
        while i < self.functions.len()
            invariant
                0 <= i <= self.functions.len(),
                by_path == query@.contains('.'),
                cat == catalog(self.functions@),
                first_answer(cat, query@, 0) == first_answer(cat, query@, i as int),
            decreases self.functions.len() - i,
        {
            if record_answers(&self.functions[i], query, by_path) {
                return Some(i);
            }
            i = i + 1;
        }
        None
    }

    /// Finds a function by its full dotted path, or by its name where its
    /// path has two segments: the first record that answers.
    pub fn find_function(&self, path: &str) -> (r: Option<&Function>)
        ensures
            match first_answer(catalog(self.functions@), path@, 0) {
                Some(i) => 0 <= i < self.functions.len() && r == Some(&self.functions[i]),
                None => r is None,
            },
    {
        match self.find_index(path) {
            Some(i) => Some(&self.functions[i]),
            None => None,
        }
    }
}

/// `s` without its leading and trailing white space.
pub fn trimmed(s: &str) -> (r: String)
    ensures
        r@ == trim(s@),
{
    let v = chars_of(s);
    assert(v@.subrange(0, v@.len() as int) =~= v@);
    let (a, b) = trim_range(&v, 0, v.len());
    string_of(&v, a, b)
}

/// Whether one of the paths, written with dots, is `target`.
fn aliases_name(aliases: &Vec<Vec<String>>, target: &str) -> (r: bool)
    ensures
        r == names_target(aliases.deep_view(), target@),
{
    let ghost paths = aliases.deep_view();
    let mut i: usize = 0;
    while i < aliases.len()
        invariant
            0 <= i <= aliases.len(),
            paths == aliases.deep_view(),
            forall|k: int| 0 <= k < i ==> dotted(#[trigger] paths[k]) != target@,
        decreases aliases.len() - i,
    {
        let full = dotted_path(&aliases[i]);
        assert(paths[i as int] == aliases[i as int].deep_view());
        if same_text(full.as_str(), target) {
            return true;
        }
        i = i + 1;
    }
    false
}

/// Whether a guess that reads `input` and resolved to `guess` has found
/// the function at `target`.
fn guess_hits(target: &str, input: &str, guess: &Function) -> (r: bool)
    ensures
        r == hits(target@, input@, guess@),
{
    if same_text(input, target) {
        return true;
    }
    let own = dotted_path(&guess.meta.path);
    if same_text(own.as_str(), target) {
        return true;
    }
    match &guess.meta.aliases {
        Some(aliases) => aliases_name(aliases, target),
        None => false,
    }
}

/// The first `n` of the clues, or all of them where there are fewer.
fn first_clues(all: Vec<String>, n: usize) -> (r: Vec<String>)
    ensures
        r.deep_view() == all.deep_view().take(
            if n < all.len() {
                n as int
            } else {
                all.len() as int
            },
        ),
{
    let mut r = all;
    if n < r.len() {
        let ghost before = r.deep_view();
        r.truncate(n);
        assert(r.deep_view() =~= before.take(n as int));
    } else {
        assert(r.deep_view().take(r.len() as int) =~= r.deep_view());
    }
    r
}

impl State {
    /// Evaluates a guess, made after `attempts` evaluated guesses. There is
    /// no feedback on a guess that names no function of the catalog.
    pub fn attempt_game(&self, input: &str, attempts: usize) -> (r: Option<AttemptMessage>)
        requires
            self.game is Some,
        ensures
            r.deep_view() == evaluation(
                self.game->0@,
                catalog(self.functions@),
                self.builtin_types.deep_view(),
                input@,
                attempts as nat,
            ),
    {
        let query = trimmed(input);
        let game = self.game.as_ref().unwrap();
        let guess = match self.find_function(query.as_str()) {
            Some(guess) => guess,
            None => { return None; },
        };
        if guess_hits(game.get_func(), query.as_str(), guess) {
            return Some(
                AttemptMessage {
                    success: true,
                    func: Some(game.get_func().to_owned()),
                    description: Some(game.get_description().to_owned()),
                    clues: game.get_clues(),
                    args: Matches::JustRight,
                    input: true,
                    output: true,
                },
            );
        }
        let types = match guess.get_types(self.builtin_types.as_slice()) {
            Some(types) => types,
            None => { return None; },
        };
        let target_types = game.get_types();
        let types_match = Matches::check_types((&types.0, &types.1), target_types);
        let args_match = Matches::check_counts(guess.get_args_count(), game.get_args_count());
        let clues = first_clues(game.get_clues(), attempts / NEXT_CLUE_ATTEMPTS);
        Some(
            AttemptMessage {
                success: false,
                func: None,
                description: None,
                clues,
                args: args_match,
                input: types_match.0,
                output: types_match.1,
            },
        )
    }
}

/// What parts the first paragraph of a description from the rest: a blank
/// line.
pub open spec fn paragraph_break() -> Seq<char> {
    seq!['\n', '\n']
}

/// The text before the first blank line.
pub open spec fn first_paragraph(s: Seq<char>) -> Seq<char> {
    match find(s, paragraph_break()) {
        Some(i) => s.subrange(0, i),
        None => s,
    }
}

/// The description that a round shows: the first paragraph of the trimmed
/// text, on one line, trimmed.
pub open spec fn summary(raw: Seq<char>) -> Seq<char> {
    trim(unwrap_lines(first_paragraph(trim(raw))))
}

/// Whether a record can be played: it has a description that is more than
/// white space, and its types can be resolved.
pub open spec fn eligible(f: FunctionView, table: Seq<(Seq<char>, Seq<char>)>) -> bool {
    &&& f.description matches Some(text) && trim(text).len() > 0
    &&& resolve_types(f, table) is Some
}

/// Whether `game` is the round on the record `f`.
pub open spec fn round_on(game: GameView, f: FunctionView, table: Seq<(Seq<char>, Seq<char>)>) -> bool {
    &&& f.description is Some
    &&& game.func == dotted(f.path)
    &&& game.description == summary(f.description->0)
    &&& game.args == args_count(f)
    &&& resolve_types(f, table) == Some((game.input, game.output))
    &&& game.nix_commit == Seq::<char>::empty()
}

/// Whether the catalog holds a record that can be played.
pub open spec fn playable(functions: Seq<FunctionView>, table: Seq<(Seq<char>, Seq<char>)>) -> bool {
    exists|i: int| 0 <= i < functions.len() && eligible(#[trigger] functions[i], table)
}

/// The description that a round shows for the text `raw`.
pub fn summarize(raw: &str) -> (r: String)
    ensures
        r@ == summary(raw@),
{
    let v = chars_of(raw);
    assert(v@.subrange(0, v@.len() as int) =~= v@);
    let (a, b) = trim_range(&v, 0, v.len());
    let gap: Vec<char> = vec!['\n', '\n'];
    assert(gap@ =~= paragraph_break());
    let ghost body = v@.subrange(a as int, b as int);
    let end = match find_in(&v, a, b, &gap) {
        Some(k) => k,
        None => b,
    };
    let ghost para = v@.subrange(a as int, end as int);
    assert(para =~= first_paragraph(body));
    let mut line: Vec<char> = Vec::new();
    let mut i: usize = a;
    while i < end
        invariant
            a <= i <= end <= v.len(),
            para == v@.subrange(a as int, end as int),
            line.len() == i - a,
            forall|j: int| 0 <= j < i - a ==> #[trigger] line@[j] == unwrap_lines(para)[j],
        decreases end - i,
    {
        let c = v[i];
        line.push(if c == '\n' { ' ' } else { c });
        i = i + 1;
    }
    assert(line@ =~= unwrap_lines(para));
    assert(line@.subrange(0, line@.len() as int) =~= line@);
    let (s, e) = trim_range(&line, 0, line.len());
    string_of(&line, s, e)
}

/// Whether a text is more than white space.
fn has_text(s: &str) -> (r: bool)
    ensures
        r == (trim(s@).len() > 0),
{
    let v = chars_of(s);
    assert(v@.subrange(0, v@.len() as int) =~= v@);
    let (a, b) = trim_range(&v, 0, v.len());
    a < b
}

/// One of the candidates, drawn at random.
///
/// Calls `rand::seq::IndexedRandom::choose` on the slice with the thread's
/// generator `rand::rng()`. The source returns `None` for an empty slice and
/// else a reference to the element at a random index; which element is not
/// determined.
#[verifier::external_body]
fn draw(candidates: &Vec<usize>) -> (r: Option<usize>)
    ensures
        candidates.len() == 0 ==> r is None,
        candidates.len() > 0 ==> r is Some && candidates@.contains(r->0),
{
    candidates.choose(&mut rand::rng()).copied()
}

/// Whether a record can be played, with `builtin_types` as the table of the
/// signatures of built-in functions.
pub fn is_playable(f: &Function, builtin_types: &[(String, String)]) -> (r: bool)
    ensures
        r == eligible(f@, builtin_types.deep_view()),
{
    match f.get_description() {
        Some(text) => has_text(text) && f.get_types(builtin_types).is_some(),
        None => false,
    }
}

/// Whether a record belongs in the catalog: it has a description that is
/// not empty, and its types can be resolved.
pub open spec fn described(f: FunctionView, table: Seq<(Seq<char>, Seq<char>)>) -> bool {
    &&& f.description matches Some(text) && text.len() > 0
    &&& resolve_types(f, table) is Some
}

/// The records that belong in the catalog, in their order.
pub open spec fn described_records(
    functions: Seq<FunctionView>,
    table: Seq<(Seq<char>, Seq<char>)>,
) -> Seq<FunctionView> {
    functions.filter(|f: FunctionView| described(f, table))
}

/// Whether a record belongs in the catalog, with `builtin_types` as the
/// table of the signatures of built-in functions.
pub fn is_described(f: &Function, builtin_types: &[(String, String)]) -> (r: bool)
    ensures
        r == described(f@, builtin_types.deep_view()),
{
    match f.get_description() {
        Some(text) => !text.is_empty() && f.get_types(builtin_types).is_some(),
        None => false,
    }
}

/// Keeps the records that belong in the catalog, in their order: those with
/// a description that is not empty and with types that can be resolved.
pub fn parse_functions_filtered(builtin_types: &[(String, String)], functions: Vec<Function>) -> (r:
    Vec<Function>)
    ensures
        catalog(r@) == described_records(catalog(functions@), builtin_types.deep_view()),
{
    let ghost table = builtin_types.deep_view();
    let ghost all = catalog(functions@);
    let ghost keep = |f: FunctionView| described(f, table);
    let mut r: Vec<Function> = Vec::new();
    proof {
        reveal(Seq::filter);
        assert(catalog(r@) =~= all.take(0).filter(keep));
    }
    for f in it: functions
        invariant
            it.seq() == functions@,
            table == builtin_types.deep_view(),
            all == catalog(functions@),
            keep == |f: FunctionView| described(f, table),
            catalog(r@) == all.take(it.index()).filter(keep),
    {
        let ghost k = it.index();
        let ghost before = catalog(r@);
        proof {
            reveal(Seq::filter);
            assert(all.take(k + 1).drop_last() =~= all.take(k));
            assert(all.take(k + 1).last() == f@);
        }
        if is_described(&f, builtin_types) {
            r.push(f);
            assert(catalog(r@) =~= before.push(f@));
        }
    }
    assert(all.take(all.len() as int) =~= all);
    r
}

/// What a player is told of the rules.
pub open spec fn rules_text() -> Seq<char> {
    "you can guess by full path (e.g. 'lib.replaceStrings')\nor by name (e.g. 'substring' for 'builtins.substring')\nafter each guess, you'll see how close you were to the actual function\nevery "@
        + decimal(NEXT_CLUE_ATTEMPTS as nat) + " attempts, you'll get a new path clue"@
}

impl State {
    /// Whether the record at `index` can be played.
    pub fn is_eligible(&self, index: usize) -> (r: bool)
        requires
            index < self.functions.len(),
        ensures
            r == eligible(self.functions[index as int]@, self.builtin_types.deep_view()),
    {
        is_playable(&self.functions[index], self.builtin_types.as_slice())
    }

    /// What a driver is told when it starts: the day of the round, where to
    /// send guesses, how many clues the target holds, the rules, and the
    /// version of the software that answers.
    pub fn start_game(&self, attempt_url: String, version: String) -> (r: StartMessage)
        requires
            self.game is Some,
        ensures
            r.date@ == self.game->0@.date,
            r.attempt_url == attempt_url,
            r.possible_clues == clues_of(self.game->0@.func).len(),
            r.rules@ == rules_text(),
            r.version == version,
            r.nix_commit@ == self.game->0@.nix_commit,
    {
        let game = self.game.as_ref().unwrap();
        let clues = game.get_clues();
        let mut rules = String::from_str(
            "you can guess by full path (e.g. 'lib.replaceStrings')\nor by name (e.g. 'substring' for 'builtins.substring')\nafter each guess, you'll see how close you were to the actual function\nevery ",
        );
        let count = decimal_string(NEXT_CLUE_ATTEMPTS);
        rules.append(count.as_str());
        rules.append(" attempts, you'll get a new path clue");
        StartMessage {
            date: game.get_date(),
            attempt_url,
            possible_clues: clues.len(),
            rules,
            version,
            nix_commit: game.get_nix_commit().to_owned(),
        }
    }

    /// The indices of the records that can be played, in order.
    pub fn eligible_indices(&self) -> (r: Vec<usize>)
        ensures
            forall|k: int|
                0 <= k < r.len() ==> (#[trigger] r[k]) < self.functions.len() && eligible(
                    self.functions[r[k] as int]@,
                    self.builtin_types.deep_view(),
                ),
            forall|i: int|
                0 <= i < self.functions.len() && eligible(
                    #[trigger] self.functions[i]@,
                    self.builtin_types.deep_view(),
                ) ==> r@.contains(i as usize),
            forall|j: int, k: int| 0 <= j < k < r.len() ==> r[j] < r[k],
    {
        let mut r: Vec<usize> = Vec::new();
        let mut i: usize = 0;
        while i < self.functions.len()
            invariant
                0 <= i <= self.functions.len(),
                forall|k: int|
                    0 <= k < r.len() ==> (#[trigger] r[k]) < i && eligible(
                        self.functions[r[k] as int]@,
                        self.builtin_types.deep_view(),
                    ),
                forall|j: int|
                    0 <= j < i && eligible(
                        #[trigger] self.functions[j]@,
                        self.builtin_types.deep_view(),
                    ) ==> r@.contains(j as usize),
                forall|j: int, k: int| 0 <= j < k < r.len() ==> r[j] < r[k],
            decreases self.functions.len() - i,
        {
            if self.is_eligible(i) {
                let ghost before = r@;
                r.push(i);
                proof {
                    assert(r@[before.len() as int] == i);
                    assert forall|j: int|
                        0 <= j < i + 1 && eligible(
                            #[trigger] self.functions[j]@,
                            self.builtin_types.deep_view(),
                        ) implies r@.contains(j as usize) by {
                        if j < i {
                            let k = choose|k: int| 0 <= k < before.len() && before[k] == j as usize;
                            assert(r@[k] == j as usize);
                        }
                    }
                }
            }
            i = i + 1;
        }
        r
    }

    /// The round on the record at `index`, made today; none where there is
    /// no such record or it cannot be played.
    pub fn round_at(&self, index: usize) -> (r: Option<Game>)
        ensures
            r is Some <==> index < self.functions.len() && eligible(
                self.functions[index as int]@,
                self.builtin_types.deep_view(),
            ),
            r matches Some(game) ==> round_on(
                game@,
                self.functions[index as int]@,
                self.builtin_types.deep_view(),
            ),
    {
        if index >= self.functions.len() {
            return None;
        }
        let f = &self.functions[index];
        let text = match f.get_description() {
            Some(text) => text,
            None => { return None; },
        };
        if !has_text(text) {
            return None;
        }
        let types = match f.get_types(self.builtin_types.as_slice()) {
            Some(types) => types,
            None => { return None; },
        };
        let args = f.get_args_count();
        Some(Game::new(dotted_path(&f.meta.path), summarize(text), args, types.0, types.1))
    }

    /// Starts a round on a record drawn at random among those that can be
    /// played.
    pub fn init_random_game(&mut self)
        requires
            playable(catalog(old(self).functions@), old(self).builtin_types.deep_view()),
        ensures
            final(self).functions == old(self).functions,
            final(self).builtin_types == old(self).builtin_types,
            final(self).game is Some,
            exists|i: int|
                0 <= i < old(self).functions.len() && eligible(
                    #[trigger] old(self).functions[i]@,
                    old(self).builtin_types.deep_view(),
                ) && round_on(
                    final(self).game->0@,
                    old(self).functions[i]@,
                    old(self).builtin_types.deep_view(),
                ),
    {
        let candidates = self.eligible_indices();
        proof {
            let cat = catalog(self.functions@);
            let w = choose|i: int|
                0 <= i < cat.len() && eligible(#[trigger] cat[i], self.builtin_types.deep_view());
            assert(cat[w] == self.functions[w]@);
            assert(candidates@.contains(w as usize));
        }
        match draw(&candidates) {
            Some(index) => {
                proof {
                    let k = choose|k: int| 0 <= k < candidates.len() && candidates[k] == index;
                    assert(candidates[k] < self.functions.len());
                }
                let game = self.round_at(index);
                self.game = game;
            },
            None => {},
        }
    }
}

} // verus!
