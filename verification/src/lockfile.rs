//! The tamper-evident record of a player's progress.

use crate::crypto::{generate_hmac, signature_of, verify_hmac};
use crate::json::{
    ascending, is_exact, items_view, json_parse, json_print, lemma_view_unfolds, member, member_of,
    object_of, parse_json, parts_before, precedes, print_json, Json, JsonView,
};
use vstd::prelude::*;
use vstd::string::StringExecFns;

verus! {

/// How far a player has come in a session.
#[derive(Clone, Debug)]
pub struct Lockfile {
    /// The day of the session.
    pub date: String,
    /// Whether the session is won.
    pub success: bool,
    /// How many guesses have been evaluated.
    pub attempts: usize,
    /// The guesses, as they were typed, in order.
    pub attempted: Vec<String>,
    /// The version of the software that wrote the record.
    pub version: String,
}

/// A record as plain values.
pub struct LockfileView {
    pub date: Seq<char>,
    pub success: bool,
    pub attempts: nat,
    pub attempted: Seq<Seq<char>>,
    pub version: Seq<char>,
}

impl DeepView for Lockfile {
    type V = LockfileView;

    open spec fn deep_view(&self) -> LockfileView {
        LockfileView {
            date: self.date@,
            success: self.success,
            attempts: self.attempts as nat,
            attempted: self.attempted.deep_view(),
            version: self.version@,
        }
    }
}

/// What is kept of a record: its text, and the tag over that text.
#[derive(Clone, Debug)]
pub struct SealedRecord {
    /// The record as compact JSON.
    pub contents: String,
    /// The tag that authenticates the contents.
    pub signature: Vec<u8>,
}

/// The record of a session in which nothing has happened yet.
pub open spec fn fresh() -> LockfileView {
    LockfileView {
        date: Seq::empty(),
        success: false,
        attempts: 0,
        attempted: Seq::empty(),
        version: Seq::empty(),
    }
}

/// A record counts each guess that it holds.
pub open spec fn well_formed(v: LockfileView) -> bool {
    v.attempts == v.attempted.len()
}

/// Each guess as a JSON string.
pub open spec fn strings_tree(texts: Seq<Seq<char>>) -> Seq<JsonView> {
    Seq::new(texts.len(), |i: int| JsonView::String(texts[i]))
}

/// The JSON document that stands for a record: an object with one member
/// for each field, the keys in alphabetical order.
pub open spec fn record_tree(v: LockfileView) -> JsonView {
    JsonView::Object(
        seq![
            ("attempted"@, JsonView::Array(strings_tree(v.attempted))),
            ("attempts"@, JsonView::Number(v.attempts as u64)),
            ("date"@, JsonView::String(v.date)),
            ("success"@, JsonView::Bool(v.success)),
            ("version"@, JsonView::String(v.version)),
        ],
    )
}

/// The texts of the items of an array, where each item is a string.
pub open spec fn tree_strings(items: Seq<JsonView>) -> Option<Seq<Seq<char>>> {
    if forall|i: int| 0 <= i < items.len() ==> (#[trigger] items[i]) is String {
        Some(Seq::new(items.len(), |i: int| items[i]->String_0))
    } else {
        None
    }
}

/// The record that a JSON document stands for: the document is an object
/// with a string `date`, a boolean `success`, a whole number `attempts`
/// that this machine can count to, an array of strings `attempted` and a
/// string `version`, and the record is well formed. Any other document
/// stands for none.
pub open spec fn read_record(tree: JsonView) -> Option<LockfileView> {
    match tree {
        JsonView::Object(members) => match (
            member(members, "date"@),
            member(members, "success"@),
            member(members, "attempts"@),
            member(members, "attempted"@),
            member(members, "version"@),
        ) {
            (
                Some(JsonView::String(date)),
                Some(JsonView::Bool(success)),
                Some(JsonView::Number(attempts)),
                Some(JsonView::Array(items)),
                Some(JsonView::String(version)),
            ) => match tree_strings(items) {
                Some(attempted) => if attempts <= usize::MAX && attempts == attempted.len() {
                    Some(
                        LockfileView {
                            date,
                            success,
                            attempts: attempts as nat,
                            attempted,
                            version,
                        },
                    )
                } else {
                    None
                },
                None => None,
            },
            _ => None,
        },
        _ => None,
    }
}

/// The text that is kept of a record.
pub open spec fn stored_text(v: LockfileView) -> Seq<char> {
    json_print(record_tree(v))
}

/// The record that kept contents give back to the holder of `key`: the
/// record that the contents stand for, where the tag is that of the contents
/// under the key. Where nothing was kept, the tag is another, the contents
/// are no JSON or stand for no record, it is the fresh record.
pub open spec fn opened(key: Seq<char>, stored: Option<(Seq<char>, Seq<u8>)>) -> LockfileView {
    match stored {
        Some((contents, signature)) => if signature == signature_of(key, contents) {
            match json_parse(contents) {
                Some(tree) => match read_record(tree) {
                    Some(v) => v,
                    None => fresh(),
                },
                None => fresh(),
            }
        } else {
            fresh()
        },
        None => fresh(),
    }
}

/// What was kept, as plain values.
pub open spec fn stored_view(stored: Option<SealedRecord>) -> Option<(Seq<char>, Seq<u8>)> {
    match stored {
        Some(sealed) => Some((sealed.contents@, sealed.signature@)),
        None => None,
    }
}

/// The keys of the document that stands for a record come in strictly
/// ascending order.
pub proof fn lemma_record_keys_ascend(v: LockfileView)
    ensures
        ascending(record_tree(v)->Object_0),
{
    reveal_strlit("attempted");
    reveal_strlit("attempts");
    reveal_strlit("date");
    reveal_strlit("success");
    reveal_strlit("version");
    let members = record_tree(v)->Object_0;
    assert(precedes("attempted"@, "attempts"@)) by {
        assert("attempted"@.subrange(0, 7) =~= "attempts"@.subrange(0, 7));
        assert(parts_before("attempted"@, "attempts"@, 7));
    }
    assert(precedes("attempts"@, "date"@)) by {
        assert("attempts"@.subrange(0, 0) =~= "date"@.subrange(0, 0));
        assert(parts_before("attempts"@, "date"@, 0));
    }
    assert(precedes("date"@, "success"@)) by {
        assert("date"@.subrange(0, 0) =~= "success"@.subrange(0, 0));
        assert(parts_before("date"@, "success"@, 0));
    }
    assert(precedes("success"@, "version"@)) by {
        assert("success"@.subrange(0, 0) =~= "version"@.subrange(0, 0));
        assert(parts_before("success"@, "version"@, 0));
    }
    assert forall|i: int| 0 <= i < members.len() - 1 implies precedes(
        #[trigger] members[i].0,
        members[i + 1].0,
    ) by {
        if i == 0 {
        } else if i == 1 {
        } else if i == 2 {
        } else {
        }
    }
}

impl Lockfile {
    /// The record of a session in which nothing has happened yet.
    pub fn default() -> (r: Lockfile)
        ensures
            r.deep_view() == fresh(),
    {
        let r = Lockfile {
            date: String::new(),
            success: false,
            attempts: 0,
            attempted: Vec::new(),
            version: String::new(),
        };
        assert(r.attempted.deep_view() =~= Seq::empty());
        r
    }

    /// Counts one evaluated guess and keeps what was typed.
    pub fn record_attempt(&mut self, input: String)
        requires
            well_formed(old(self).deep_view()),
            old(self).attempts < usize::MAX,
        ensures
            final(self).deep_view() == (LockfileView {
                attempts: old(self).deep_view().attempts + 1,
                attempted: old(self).deep_view().attempted.push(input@),
                ..old(self).deep_view()
            }),
            well_formed(final(self).deep_view()),
    {
        let ghost before = self.attempted.deep_view();
        self.attempts = self.attempts + 1;
        self.attempted.push(input);
        assert(self.attempted.deep_view() =~= before.push(input@));
    }

    /// The JSON document that stands for the record.
    pub fn to_json(&self) -> (r: Json)
        ensures
            r.deep_view() == record_tree(self.deep_view()),
    {
        let mut items: Vec<Json> = Vec::new();
        let mut i: usize = 0;
        while i < self.attempted.len()
            invariant
                0 <= i <= self.attempted.len(),
                items.len() == i,
                forall|k: int| 0 <= k < i ==> (#[trigger] items[k]).deep_view() == JsonView::String(
                    self.attempted[k]@,
                ),
            decreases self.attempted.len() - i,
        {
            items.push(Json::String(self.attempted[i].clone()));
            i = i + 1;
        }
        let array = Json::Array(items);
        proof {
            assert forall|k: int| 0 <= k < items.len() implies is_exact(#[trigger] items[k]) by {
                assert(items[k].deep_view() is String);
                assert(items[k] is String);
            }
            assert(is_exact(array));
            lemma_view_unfolds(array);
            assert(items_view(items@) =~= strings_tree(self.attempted.deep_view()));
        }
        let mut members: Vec<(String, Json)> = Vec::new();
        members.push((String::from_str("attempted"), array));
        members.push((String::from_str("attempts"), Json::Number(self.attempts as u64)));
        members.push((String::from_str("date"), Json::String(self.date.clone())));
        members.push((String::from_str("success"), Json::Bool(self.success)));
        members.push((String::from_str("version"), Json::String(self.version.clone())));
        proof {
            assert(members.deep_view() =~= record_tree(self.deep_view())->Object_0);
            lemma_record_keys_ascend(self.deep_view());
            assert forall|i: int| 0 <= i < members.len() implies is_exact(
                (#[trigger] members[i]).1,
            ) by {
                if i == 0 {
                } else if i == 1 {
                } else if i == 2 {
                } else if i == 3 {
                } else {
                }
            }
        }
        object_of(members)
    }

    /// The record that a JSON document stands for.
    pub fn from_json(tree: &Json) -> (r: Option<Lockfile>)
        ensures
            r.deep_view() == read_record(tree.deep_view()),
    {
        let map = match tree {
            Json::Object(map) => map,
            _ => { return None; },
        };
        proof {
            lemma_view_unfolds(*tree);
        }
        let date = match member_of(map, "date") {
            Some(Json::String(date)) => date,
            _ => { return None; },
        };
        let success = match member_of(map, "success") {
            Some(Json::Bool(success)) => success,
            _ => { return None; },
        };
        let attempts = match member_of(map, "attempts") {
            Some(Json::Number(attempts)) => attempts,
            _ => { return None; },
        };
        let array = match member_of(map, "attempted") {
            Some(array) => array,
            None => { return None; },
        };
        proof {
            lemma_view_unfolds(array);
        }
        let items = match array {
            Json::Array(items) => items,
            _ => { return None; },
        };
        let version = match member_of(map, "version") {
            Some(Json::String(version)) => version,
            _ => { return None; },
        };
        let ghost views = items_view(items@);
        assert(tree_strings(views) is None ==> read_record(tree.deep_view()) is None);
        let mut attempted: Vec<String> = Vec::new();
        let mut i: usize = 0;
        while i < items.len()
            invariant
                0 <= i <= items.len(),
                views == items_view(items@),
                tree_strings(views) is None ==> read_record(tree.deep_view()) is None,
                attempted.len() == i,
                forall|k: int| 0 <= k < i ==> (#[trigger] views[k]) is String,
                forall|k: int| 0 <= k < i ==> (#[trigger] attempted[k])@ == views[k]->String_0,
            decreases items.len() - i,
        {
            match &items[i] {
                Json::String(text) => {
                    attempted.push(text.clone());
                },
                _ => {
                    assert(!(views[i as int] is String));
                    return None;
                },
            }
            i = i + 1;
        }
        assert(attempted.deep_view() =~= tree_strings(views)->0);
        if attempts > usize::MAX as u64 || attempts != attempted.len() as u64 {
            return None;
        }
        Some(
            Lockfile {
                date,
                success,
                attempts: attempts as usize,
                attempted,
                version,
            },
        )
    }

    /// What to keep of the record so that only the holder of `key` can
    /// bring it back: the record as text, with the tag of that text.
    pub fn save(&self, key: &str) -> (r: SealedRecord)
        ensures
            r.contents@ == stored_text(self.deep_view()),
            r.signature@ == signature_of(key@, r.contents@),
    {
        let tree = self.to_json();
        let contents = print_json(&tree);
        let signature = generate_hmac(key, contents.as_str());
        SealedRecord { contents, signature }
    }

    /// The record to go on with, given what was kept: the record that was
    /// kept where its tag was made with `key`, and else a fresh one.
    pub fn open(key: &str, stored: Option<SealedRecord>) -> (r: Lockfile)
        ensures
            r.deep_view() == opened(key@, stored_view(stored)),
    {
        let sealed = match stored {
            Some(sealed) => sealed,
            None => { return Lockfile::default(); },
        };
        if !verify_hmac(key, sealed.contents.as_str(), sealed.signature.as_slice()) {
            return Lockfile::default();
        }
        let tree = match parse_json(sealed.contents.as_str()) {
            Ok(tree) => tree,
            Err(_) => { return Lockfile::default(); },
        };
        match Lockfile::from_json(&tree) {
            Some(record) => record,
            None => Lockfile::default(),
        }
    }
}

} // verus!
