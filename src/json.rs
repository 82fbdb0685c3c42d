//! A parsed JSON document held as plain values.
use vstd::prelude::*;

verus! {

/// A JSON value. Numbers keep the text they were written with; object members
/// keep the order in which they were supplied.
#[derive(Debug)]
pub enum Json {
    Null,
    Bool(bool),
    Number(String),
    Str(String),
    Array(Vec<Json>),
    Object(Vec<(String, Json)>),
}

/// The value of the first member named `key`.
pub open spec fn lookup(fs: Seq<(String, Json)>, key: Seq<char>) -> Option<Json>
    decreases fs.len(),
{
    if fs.len() == 0 {
        None
    } else if fs[0].0@ == key {
        Some(fs[0].1)
    } else {
        lookup(fs.drop_first(), key)
    }
}

/// The sentinel written for a value that the document does not supply.
pub open spec fn none_text() -> Seq<char> {
    seq!['N', 'o', 'n', 'e']
}

/// The text a scalar stands for: a string's contents, a number's digits,
/// `true`, `false` or `null`. A nested array or object has no scalar text and
/// reads as the sentinel.
pub open spec fn text_of(j: Json) -> Seq<char> {
    match j {
        Json::Null => seq!['n', 'u', 'l', 'l'],
        Json::Bool(b) => if b {
            seq!['t', 'r', 'u', 'e']
        } else {
            seq!['f', 'a', 'l', 's', 'e']
        },
        Json::Number(t) => t@,
        Json::Str(s) => s@,
        _ => none_text(),
    }
}

impl Json {
    /// The member `key` of an object; nothing for any other value.
    pub open spec fn member(self, key: Seq<char>) -> Option<Json> {
        match self {
            Json::Object(fs) => lookup(fs@, key),
            _ => None,
        }
    }

    /// Looks up the first member named `key` of an object.
    pub fn get(&self, key: &str) -> (r: Option<&Json>)
        ensures
            r.is_some() == self.member(key@).is_some(),
            r.is_some() ==> *r.unwrap() == self.member(key@).unwrap(),
    {
        match self {
            Json::Object(fs) => {
                let k = String::from_str(key);
                let mut i: usize = 0;
                assert(fs@.subrange(0, fs@.len() as int) =~= fs@);
                while i < fs.len()
                    invariant
                        0 <= i <= fs@.len(),
                        k@ == key@,
                        self.member(key@) == lookup(fs@, key@),
                        lookup(fs@, key@) == lookup(fs@.subrange(i as int, fs@.len() as int), key@),
                    decreases fs@.len() - i,
                {
                    let ghost rest = fs@.subrange(i as int, fs@.len() as int);
                    assert(rest[0] == fs@[i as int]);
                    if fs[i].0 == k {
                        return Some(&fs[i].1);
                    }
                    assert(rest.drop_first() =~= fs@.subrange(i + 1, fs@.len() as int));
                    i = i + 1;
                }
                None
            },
            _ => None,
        }
    }

    /// The scalar text of this value (see `text_of`).
    pub fn text(&self) -> (r: String)
        ensures
            r@ == text_of(*self),
    {
        match self {
            Json::Null => {
                proof {
                    reveal_strlit("null");
                }
                String::from_str("null")
            },
            Json::Bool(b) => {
                proof {
                    reveal_strlit("true");
                    reveal_strlit("false");
                }
                if *b {
                    String::from_str("true")
                } else {
                    String::from_str("false")
                }
            },
            Json::Number(t) => t.clone(),
            Json::Str(s) => s.clone(),
            _ => none_string(),
        }
    }
}

/// The sentinel as a `String`.
pub fn none_string() -> (r: String)
    ensures
        r@ == none_text(),
{
    proof {
        reveal_strlit("None");
    }
    String::from_str("None")
}

} // verus!
