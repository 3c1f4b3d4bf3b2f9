//! The round that is being played.

use crate::function::Type;
use crate::text::{chars_of, split, split_ranges, string_of};
use vstd::prelude::*;
use vstd::string::StrSliceExecFns;

verus! {

/// The target of a round.
#[derive(Clone, Debug)]
pub struct Game {
    /// Always true: there is one round.
    id: bool,
    /// The full dotted path of the function.
    func: String,
    /// The first paragraph of the function's description, on one line.
    description: String,
    /// The number of arguments that the function takes.
    args: usize,
    /// The type of the function's input.
    input: Type,
    /// The type of the function's output.
    output: Type,
    /// The commit of the library that the catalog was taken from.
    nix_commit: String,
    /// The day on which the round was made, as year, month and day.
    created_at: String,
}

/// A round as plain values.
pub struct GameView {
    pub func: Seq<char>,
    pub description: Seq<char>,
    pub args: usize,
    pub input: Type,
    pub output: Type,
    pub nix_commit: Seq<char>,
    pub date: Seq<char>,
}

/// The segments of a dotted path.
pub open spec fn segments(func: Seq<char>) -> Seq<Seq<char>> {
    split(func, seq!['.'])
}

/// The clues that a dotted path holds: its segments but the last.
pub open spec fn clues_of(func: Seq<char>) -> Seq<Seq<char>> {
    segments(func).drop_last()
}

/// The day that the system's clock shows, in universal time.
///
/// Calls `chrono::Utc::now` and formats the date with
/// `NaiveDateTime::format`. What comes back depends on the clock, so the
/// contract says nothing of it.
#[verifier::external_body]
fn today() -> (date: String) {
    chrono::Utc::now().naive_utc().format("%Y-%m-%d").to_string()
}

impl View for Game {
    type V = GameView;

    closed spec fn view(&self) -> GameView {
        GameView {
            func: self.func@,
            description: self.description@,
            args: self.args,
            input: self.input,
            output: self.output,
            nix_commit: self.nix_commit@,
            date: self.created_at@,
        }
    }
}

impl Game {
    /// A round on the function at `func`, made today.
    pub fn new(func: String, description: String, args: usize, input: Type, output: Type) -> (r:
        Game)
        ensures
            r@.func == func@,
            r@.description == description@,
            r@.args == args,
            r@.input == input,
            r@.output == output,
            r@.nix_commit == Seq::<char>::empty(),
    {
        Game {
            id: true,
            func,
            description,
            args,
            input,
            output,
            nix_commit: String::new(),
            created_at: today(),
        }
    }

    pub fn get_func(&self) -> (r: &str)
        ensures
            r@ == self@.func,
    {
        self.func.as_str()
    }

    /// The last segment of the path.
    pub fn get_func_name(&self) -> (r: Option<&str>)
        ensures
            r.deep_view() == Some(segments(self@.func).last()),
    {
        let v = chars_of(self.func.as_str());
        let dot: Vec<char> = vec!['.'];
        assert(dot@ =~= seq!['.']);
        assert(v@.subrange(0, v@.len() as int) =~= v@);
        let ranges = split_ranges(&v, 0, v.len(), &dot);
        let last = ranges[ranges.len() - 1];
        proof {
            let parts = segments(self@.func);
            assert(parts.last() == v@.subrange(last.0 as int, last.1 as int));
        }
        Some(self.func.as_str().substring_char(last.0, last.1))
    }

    /// The segments of the path but the last, in order.
    pub fn get_clues(&self) -> (r: Vec<String>)
        ensures
            r.deep_view() == clues_of(self@.func),
    {
        let v = chars_of(self.func.as_str());
        let dot: Vec<char> = vec!['.'];
        assert(dot@ =~= seq!['.']);
        assert(v@.subrange(0, v@.len() as int) =~= v@);
        let ranges = split_ranges(&v, 0, v.len(), &dot);
        let ghost parts = segments(self@.func);
        let mut r: Vec<String> = Vec::new();
        let mut i: usize = 0;
        while i + 1 < ranges.len()
            invariant
                0 <= i < ranges.len(),
                ranges.len() == parts.len(),
                forall|k: int|
                    0 <= k < ranges.len() ==> (#[trigger] ranges[k]).0 <= ranges[k].1 <= v.len(),
                forall|k: int|
                    0 <= k < ranges.len() ==> v@.subrange(
                        ranges[k].0 as int,
                        ranges[k].1 as int,
                    ) == #[trigger] parts[k],
                r.len() == i,
                forall|k: int| 0 <= k < i ==> (#[trigger] r[k])@ == parts[k],
            decreases ranges.len() - i,
        {
            let piece = ranges[i];
            r.push(string_of(&v, piece.0, piece.1));
            i = i + 1;
        }
        assert(r.deep_view() =~= parts.drop_last());
        r
    }

    pub fn get_description(&self) -> (r: &str)
        ensures
            r@ == self@.description,
    {
        self.description.as_str()
    }

    pub fn get_args_count(&self) -> (r: usize)
        ensures
            r == self@.args,
    {
        self.args
    }

    pub fn get_types(&self) -> (r: (&Type, &Type))
        ensures
            *r.0 == self@.input,
            *r.1 == self@.output,
    {
        (&self.input, &self.output)
    }

    pub fn get_nix_commit(&self) -> (r: &str)
        ensures
            r@ == self@.nix_commit,
    {
        self.nix_commit.as_str()
    }

    /// The day on which the round was made.
    pub fn get_date(&self) -> (r: String)
        ensures
            r@ == self@.date,
    {
        self.created_at.clone()
    }
}

} // verus!
