//! Catalog records and the parser of their type signatures.

use crate::text::{
    chars_of, find, find_in, lemma_trim_len, lemma_trim_lowercase, lowercase, pieces_of, split,
    same_text, split_ranges, to_lower, trim, trim_range,
};
use vstd::prelude::*;
use vstd::std_specs::cmp::PartialEqSpecImpl;

verus! {

/// The type of a function's argument or result.
#[derive(Debug)]
pub enum Type {
    Any,
    Attrset,
    Bool,
    Float,
    List(Box<Type>),
    Int,
    Never,
    Path,
    String,
}

impl Type {
    /// Structural equality.
    pub fn same_as(&self, other: &Type) -> (r: bool)
        ensures
            r == (*self == *other),
        decreases *self,
    {
        match (self, other) {
            (Type::Any, Type::Any) => true,
            (Type::Attrset, Type::Attrset) => true,
            (Type::Bool, Type::Bool) => true,
            (Type::Float, Type::Float) => true,
            (Type::List(a), Type::List(b)) => a.same_as(b),
            (Type::Int, Type::Int) => true,
            (Type::Never, Type::Never) => true,
            (Type::Path, Type::Path) => true,
            (Type::String, Type::String) => true,
            _ => false,
        }
    }
}

impl Clone for Type {
    fn clone(&self) -> (r: Type)
        ensures
            r == *self,
        decreases *self,
    {
        match self {
            Type::Any => Type::Any,
            Type::Attrset => Type::Attrset,
            Type::Bool => Type::Bool,
            Type::Float => Type::Float,
            Type::List(inner) => Type::List(Box::new((**inner).clone())),
            Type::Int => Type::Int,
            Type::Never => Type::Never,
            Type::Path => Type::Path,
            Type::String => Type::String,
        }
    }
}

impl PartialEq for Type {
    fn eq(&self, other: &Type) -> (r: bool) {
        self.same_as(other)
    }
}

impl PartialEqSpecImpl for Type {
    open spec fn obeys_eq_spec() -> bool {
        true
    }

    open spec fn eq_spec(&self, other: &Type) -> bool {
        *self == *other
    }
}

/// The primitive type that a trimmed, lower-case token names.
pub open spec fn primitive(t: Seq<char>) -> Option<Type> {
    if t == "any"@ {
        Some(Type::Any)
    } else if t == "attrset"@ {
        Some(Type::Attrset)
    } else if t == "bool"@ {
        Some(Type::Bool)
    } else if t == "float"@ {
        Some(Type::Float)
    } else if t == "int"@ {
        Some(Type::Int)
    } else if t == "never"@ {
        Some(Type::Never)
    } else if t == "path"@ {
        Some(Type::Path)
    } else if t == "string"@ {
        Some(Type::String)
    } else {
        None
    }
}

/// The type that a token denotes. White space around the token and the case
/// of its letters do not count. A primitive name denotes its type; any other
/// token that begins or ends with a curly brace denotes an attribute set; any
/// other token in square brackets denotes a list of what its interior
/// denotes; nothing else denotes a type.
pub open spec fn parse_type(s: Seq<char>) -> Option<Type>
    decreases s.len(),
{
    let t = lowercase(trim(s));
    if primitive(t) is Some {
        primitive(t)
    } else if t.len() > 0 && (t.first() == '{' || t.last() == '}') {
        Some(Type::Attrset)
    } else if t.len() >= 2 && t.first() == '[' && t.last() == ']' {
        proof {
            lemma_trim_len(s);
        }
        match parse_type(t.subrange(1, t.len() - 1)) {
            Some(inner) => Some(Type::List(Box::new(inner))),
            None => None,
        }
    } else {
        None
    }
}

/// Whether `v[lo..hi]` is `word` when the case of letters is set aside.
fn is_word(v: &Vec<char>, lo: usize, hi: usize, word: &str) -> (r: bool)
    requires
        lo <= hi <= v.len(),
    ensures
        r == (lowercase(v@.subrange(lo as int, hi as int)) == word@),
{
    let ghost t = lowercase(v@.subrange(lo as int, hi as int));
    let n = word.unicode_len();
    if n != hi - lo {
        return false;
    }
    let mut k: usize = 0;
    while k < n
        invariant
            lo <= hi <= v.len(),
            n == hi - lo,
            n == word@.len(),
            0 <= k <= n,
            t == lowercase(v@.subrange(lo as int, hi as int)),
            forall|j: int| 0 <= j < k ==> t[j] == #[trigger] word@[j],
        decreases n - k,
    {
        if to_lower(v[lo + k]) != word.get_char(k) {
            assert(t[k as int] != word@[k as int]);
            return false;
        }
        k = k + 1;
    }
    assert(t =~= word@);
    true
}

/// The type that `v[lo..hi]` denotes.
fn parse_range(v: &Vec<char>, lo: usize, hi: usize) -> (r: Option<Type>)
    requires
        lo <= hi <= v.len(),
    ensures
        r == parse_type(v@.subrange(lo as int, hi as int)),
    decreases hi - lo,
{
    let (a, b) = trim_range(v, lo, hi);
    let ghost t = lowercase(v@.subrange(a as int, b as int));
    if is_word(v, a, b, "any") {
        Some(Type::Any)
    } else if is_word(v, a, b, "attrset") {
        Some(Type::Attrset)
    } else if is_word(v, a, b, "bool") {
        Some(Type::Bool)
    } else if is_word(v, a, b, "float") {
        Some(Type::Float)
    } else if is_word(v, a, b, "int") {
        Some(Type::Int)
    } else if is_word(v, a, b, "never") {
        Some(Type::Never)
    } else if is_word(v, a, b, "path") {
        Some(Type::Path)
    } else if is_word(v, a, b, "string") {
        Some(Type::String)
    } else if a < b && (v[a] == '{' || v[b - 1] == '}') {
        Some(Type::Attrset)
    } else if b - a >= 2 && v[a] == '[' && v[b - 1] == ']' {
        let inner = parse_range(v, a + 1, b - 1);
        proof {
            let body = v@.subrange(a + 1, b - 1);
            lemma_trim_lowercase(body);
            assert(t.subrange(1, t.len() - 1) =~= lowercase(body));
            lemma_parse_type_lowercase(body);
        }
        match inner {
            Some(inner) => Some(Type::List(Box::new(inner))),
            None => None,
        }
    } else {
        None
    }
}

/// The case of letters does not change what a token denotes.
pub proof fn lemma_parse_type_lowercase(s: Seq<char>)
    ensures
        parse_type(lowercase(s)) == parse_type(s),
{
    lemma_trim_lowercase(s);
    assert(lowercase(lowercase(trim(s))) =~= lowercase(trim(s)));
}

/// The token that parts a function's name from its types.
pub open spec fn scope_token() -> Seq<char> {
    seq![':', ':']
}

/// The token that parts one type of a signature from the next.
pub open spec fn arrow_token() -> Seq<char> {
    seq!['-', '>']
}

/// The types that a signature declares: what stands after its first `::`,
/// cut at each `->`. A signature without `::` declares nothing.
pub open spec fn declared_types(sig: Seq<char>) -> Option<Seq<Seq<char>>> {
    match find(sig, scope_token()) {
        Some(i) => Some(split(sig.subrange(i + 2, sig.len() as int), arrow_token())),
        None => None,
    }
}

/// The input and output type of a signature: what the first and the last of
/// at least two declared types denote, where both denote a type.
pub open spec fn parse_signature(sig: Seq<char>) -> Option<(Type, Type)> {
    match declared_types(sig) {
        Some(parts) => if parts.len() < 2 {
            None
        } else {
            match (parse_type(parts.first()), parse_type(parts.last())) {
                (Some(input), Some(output)) => Some((input, output)),
                _ => None,
            }
        },
        None => None,
    }
}

/// The number of arguments that a signature shows: one for each `->` among
/// its declared types.
pub open spec fn signature_args(sig: Seq<char>) -> nat {
    match declared_types(sig) {
        Some(parts) => (parts.len() - 1) as nat,
        None => 0,
    }
}

/// The bounds of the types that the signature in `v` declares.
fn declared_ranges(v: &Vec<char>) -> (r: Option<Vec<(usize, usize)>>)
    ensures
        match r {
            Some(ranges) => {
                &&& declared_types(v@) == Some(pieces_of(v@, ranges@))
                &&& ranges.len() >= 1
                &&& forall|k: int|
                    0 <= k < ranges.len() ==> (#[trigger] ranges[k]).0 <= ranges[k].1 <= v.len()
            },
            None => declared_types(v@) is None,
        },
{
    let scope: Vec<char> = vec![':', ':'];
    let arrow: Vec<char> = vec!['-', '>'];
    assert(scope@ =~= scope_token());
    assert(arrow@ =~= arrow_token());
    assert(v@.subrange(0, v@.len() as int) =~= v@);
    match find_in(v, 0, v.len(), &scope) {
        Some(i) => Some(split_ranges(v, i + 2, v.len(), &arrow)),
        None => None,
    }
}

/// Turns a signature into its input and output types.
pub fn types_from_signature(sig: &str) -> (r: Option<(Type, Type)>)
    ensures
        r == parse_signature(sig@),
{
    let v = chars_of(sig);
    match declared_ranges(&v) {
        Some(ranges) => {
            if ranges.len() < 2 {
                return None;
            }
            let first = ranges[0];
            let last = ranges[ranges.len() - 1];
            proof {
                let parts = pieces_of(v@, ranges@);
                assert(parts.first() == v@.subrange(first.0 as int, first.1 as int));
                assert(parts.last() == v@.subrange(last.0 as int, last.1 as int));
            }
            let input = parse_range(&v, first.0, first.1);
            let output = parse_range(&v, last.0, last.1);
            match (input, output) {
                (Some(input), Some(output)) => Some((input, output)),
                _ => None,
            }
        },
        None => None,
    }
}

/// The number of arguments that a signature shows.
pub fn args_from_signature(sig: &str) -> (r: usize)
    ensures
        r == signature_args(sig@),
{
    let v = chars_of(sig);
    match declared_ranges(&v) {
        Some(ranges) => ranges.len() - 1,
        None => 0,
    }
}

impl Type {
    /// Reads a type from a token of a signature.
    pub fn from_str(s: &str) -> (r: Option<Type>)
        ensures
            r == parse_type(s@),
    {
        let v = chars_of(s);
        assert(v@.subrange(0, v@.len() as int) =~= v@);
        parse_range(&v, 0, v.len())
    }
}

/// The arguments of a primitive operation.
#[derive(Clone, Debug)]
pub struct PrimopMeta {
    /// The names of the arguments.
    pub args: Option<Vec<String>>,
}

/// The documentation of a function.
#[derive(Clone, Debug)]
pub struct Content {
    /// The long description.
    pub content: Option<String>,
}

/// What the catalog knows of a function.
#[derive(Clone, Debug)]
pub struct Meta {
    /// The segments of the qualified name.
    pub path: Vec<String>,
    /// Other paths that lead to the same function.
    pub aliases: Option<Vec<Vec<String>>>,
    /// The type signature, as written in the documentation.
    pub signature: Option<String>,
    pub is_primop: Option<bool>,
    /// The arguments, where the function is a primitive operation.
    pub primop_meta: Option<PrimopMeta>,
}

/// One record of the catalog.
#[derive(Clone, Debug)]
pub struct Function {
    pub meta: Meta,
    pub content: Option<Content>,
}

/// A record as the rules of the game see it.
pub struct FunctionView {
    pub path: Seq<Seq<char>>,
    pub aliases: Option<Seq<Seq<Seq<char>>>>,
    pub signature: Option<Seq<char>>,
    pub primop_args: Option<Seq<Seq<char>>>,
    pub description: Option<Seq<char>>,
}

impl View for Function {
    type V = FunctionView;

    open spec fn view(&self) -> FunctionView {
        FunctionView {
            path: self.meta.path.deep_view(),
            aliases: self.meta.aliases.deep_view(),
            signature: self.meta.signature.deep_view(),
            primop_args: match self.meta.primop_meta {
                Some(primop) => primop.args.deep_view(),
                None => None,
            },
            description: match self.content {
                Some(content) => content.content.deep_view(),
                None => None,
            },
        }
    }
}

/// The name of the namespace whose functions have their signatures in the
/// table of built-in types.
pub open spec fn builtins_name() -> Seq<char> {
    "builtins"@
}

/// Whether a path has two segments, the first of them `builtins`.
pub open spec fn is_builtin_path(path: Seq<Seq<char>>) -> bool {
    path.len() == 2 && path[0] == builtins_name()
}

/// The signature that the first entry of the table at or after `from` gives
/// to `name`.
pub open spec fn lookup_from(
    table: Seq<(Seq<char>, Seq<char>)>,
    name: Seq<char>,
    from: int,
) -> Option<Seq<char>>
    decreases table.len() - from,
{
    if from < 0 || from >= table.len() {
        None
    } else if table[from].0 == name {
        Some(table[from].1)
    } else {
        lookup_from(table, name, from + 1)
    }
}

/// The types of the built-in function at `path`, a path under `builtins`:
/// those of the signature that the first entry of the table with the name of
/// the second segment holds.
pub open spec fn builtin_types_at(path: Seq<Seq<char>>, table: Seq<(Seq<char>, Seq<char>)>) -> Option<
    (Type, Type),
> {
    match lookup_from(table, path[1], 0) {
        Some(sig) => parse_signature(sig),
        None => None,
    }
}

/// The types of the first alias at or after `from` that lies under
/// `builtins` and to which the table gives types.
pub open spec fn alias_types_from(
    aliases: Seq<Seq<Seq<char>>>,
    table: Seq<(Seq<char>, Seq<char>)>,
    from: int,
) -> Option<(Type, Type)>
    decreases aliases.len() - from,
{
    if from < 0 || from >= aliases.len() {
        None
    } else if is_builtin_path(aliases[from]) && builtin_types_at(aliases[from], table) is Some {
        builtin_types_at(aliases[from], table)
    } else {
        alias_types_from(aliases, table, from + 1)
    }
}

/// The input and output type of a record. A record with a signature has the
/// types of that signature. Without one, a record whose path lies under
/// `builtins` has the types that the table gives it. Any other record has the
/// types of the first of its aliases under `builtins` to which the table
/// gives types, and none where the table gives types to none of them.
pub open spec fn resolve_types(f: FunctionView, table: Seq<(Seq<char>, Seq<char>)>) -> Option<
    (Type, Type),
> {
    match f.signature {
        Some(sig) => parse_signature(sig),
        None => if is_builtin_path(f.path) {
            builtin_types_at(f.path, table)
        } else {
            match f.aliases {
                Some(aliases) => alias_types_from(aliases, table, 0),
                None => None,
            }
        },
    }
}

/// The number of arguments of a record: the number of names in its list of
/// arguments; without such a list, what its signature shows; else none.
pub open spec fn args_count(f: FunctionView) -> nat {
    match f.primop_args {
        Some(args) => args.len(),
        None => match f.signature {
            Some(sig) => signature_args(sig),
            None => 0,
        },
    }
}

/// Whether a path has two segments, the first of them `builtins`.
fn path_is_builtin(path: &Vec<String>) -> (r: bool)
    ensures
        r == is_builtin_path(path.deep_view()),
{
    path.len() == 2 && same_text(path[0].as_str(), "builtins")
}

/// The types that the table gives to the built-in function at `path`.
fn types_of_builtin(path: &Vec<String>, table: &[(String, String)]) -> (r: Option<(Type, Type)>)
    requires
        path.len() == 2,
    ensures
        r == builtin_types_at(path.deep_view(), table.deep_view()),
{
    let ghost t = table.deep_view();
    let ghost name = path.deep_view()[1];
    let mut i: usize = 0;
    while i < table.len()
        invariant
            0 <= i <= table.len(),
            path.len() == 2,
            t == table.deep_view(),
            name == path.deep_view()[1],
            lookup_from(t, name, 0) == lookup_from(t, name, i as int),
        decreases table.len() - i,
    {
        if same_text(table[i].0.as_str(), path[1].as_str()) {
            return types_from_signature(table[i].1.as_str());
        }
        i = i + 1;
    }
    None
}

impl Function {
    /// The long description of the function.
    pub fn get_description(&self) -> (r: Option<&str>)
        ensures
            r.deep_view() == self@.description,
    {
        match &self.content {
            Some(content) => match &content.content {
                Some(text) => Some(text.as_str()),
                None => None,
            },
            None => None,
        }
    }

    /// The number of arguments that the function takes.
    pub fn get_args_count(&self) -> (r: usize)
        ensures
            r == args_count(self@),
    {
        if let Some(primop) = &self.meta.primop_meta {
            if let Some(args) = &primop.args {
                return args.len();
            }
        }
        match &self.meta.signature {
            Some(sig) => args_from_signature(sig.as_str()),
            None => 0,
        }
    }

    /// The input and output type of the function, with `builtin_types` as the
    /// table of the signatures of built-in functions.
    pub fn get_types(&self, builtin_types: &[(String, String)]) -> (r: Option<(Type, Type)>)
        ensures
            r == resolve_types(self@, builtin_types.deep_view()),
    {
        if let Some(sig) = &self.meta.signature {
            return types_from_signature(sig.as_str());
        }
        if path_is_builtin(&self.meta.path) {
            return types_of_builtin(&self.meta.path, builtin_types);
        }
        match &self.meta.aliases {
            Some(aliases) => {
                let ghost al = aliases.deep_view();
                let mut i: usize = 0;
                while i < aliases.len()
                    invariant
                        0 <= i <= aliases.len(),
                        al == aliases.deep_view(),
                        self@.aliases == Some(al),
                        self@.signature is None,
                        !is_builtin_path(self@.path),
                        alias_types_from(al, builtin_types.deep_view(), 0) == alias_types_from(
                            al,
                            builtin_types.deep_view(),
                            i as int,
                        ),
                    decreases aliases.len() - i,
                {
                    assert(al[i as int] == aliases[i as int].deep_view());
                    if path_is_builtin(&aliases[i]) {
                        let found = types_of_builtin(&aliases[i], builtin_types);
                        if found.is_some() {
                            return found;
                        }
                    }
                    i = i + 1;
                }
                None
            },
            None => None,
        }
    }
}

} // verus!
