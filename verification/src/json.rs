//! JSON documents as values.

use vstd::prelude::*;
use crate::text;

verus! {

/// A JSON document.
pub enum Json {
    Bool(bool),
    Number(u32),
    Text(String),
    List(Vec<Json>),
    /// Members in writing order; no key stands twice.
    Object(Vec<(String, Json)>),
}

/// What a `Json` holds.
pub enum Doc {
    Bool(bool),
    Number(u32),
    Text(Seq<char>),
    List(Seq<Doc>),
    Object(Seq<(Seq<char>, Doc)>),
}

/// What a document holds.
pub open spec fn doc(j: Json) -> Doc
    decreases j,
{
    match j {
        Json::Bool(b) => Doc::Bool(b),
        Json::Number(n) => Doc::Number(n),
        Json::Text(s) => Doc::Text(s@),
        Json::List(v) => Doc::List(
            Seq::new(
                v@.len(),
                |i: int|
                    if 0 <= i < v@.len() {
                        doc(v@[i])
                    } else {
                        Doc::Bool(false)
                    },
            ),
        ),
        Json::Object(m) => Doc::Object(
            Seq::new(
                m@.len(),
                |i: int|
                    if 0 <= i < m@.len() {
                        (m@[i].0@, doc(m@[i].1))
                    } else {
                        (Seq::empty(), Doc::Bool(false))
                    },
            ),
        ),
    }
}

impl View for Json {
    type V = Doc;

    open spec fn view(&self) -> Doc {
        doc(*self)
    }
}

/// The value of the first member named `key`.
pub open spec fn member(m: Seq<(Seq<char>, Doc)>, key: Seq<char>) -> Option<Doc>
    decreases m.len(),
{
    if m.len() == 0 {
        None
    } else if m[0].0 == key {
        Some(m[0].1)
    } else {
        member(m.skip(1), key)
    }
}

/// A text value.
pub fn text_value(s: &str) -> (r: Json)
    ensures
        r@ == Doc::Text(s@),
{
    Json::Text(s.to_owned())
}

/// A list of documents.
pub fn list(v: Vec<Json>) -> (r: Json)
    ensures
        r@ == Doc::List(text::views(v@)),
{
    let r = Json::List(v);
    assert(r@->List_0 =~= text::views(v@));
    r
}

/// An object with the members of `m`.
pub fn object(m: Vec<(String, Json)>) -> (r: Json)
    ensures
        r@ == Doc::Object(text::views(m@)),
{
    let r = Json::Object(m);
    assert(r@->Object_0 =~= text::views(m@));
    r
}

/// Add a member to an object under construction.
pub fn put(m: &mut Vec<(String, Json)>, key: &str, value: Json)
    ensures
        text::views(final(m)@) == text::views(old(m)@).push((key@, value@)),
{
    let ghost before = text::views(m@);
    m.push((key.to_owned(), value));
    assert(text::views(m@) =~= before.push((key@, value@)));
}

impl Json {
    /// The member named `key`, if this is an object that has it.
    pub fn get(&self, key: &str) -> (r: Option<&Json>)
        ensures
            text::opt(r) == (match self@ {
                Doc::Object(m) => member(m, key@),
                _ => None,
            }),
    {
        match self {
            Json::Object(m) => {
                let ghost all = self@->Object_0;
                let mut i: usize = 0;
                assert(all.skip(0) =~= all);
                while i < m.len()
                    invariant
                        i <= m@.len(),
                        all.len() == m@.len(),
                        self@ == Doc::Object(all),
                        forall|j: int|
                            0 <= j < m@.len() ==> #[trigger] all[j] == (m@[j].0@, m@[j].1@),
                        member(all, key@) == member(all.skip(i as int), key@),
                    decreases m@.len() - i,
                {
                    proof {
                        assert(all.skip(i as int)[0] == all[i as int]);
                        assert(all.skip(i as int).skip(1) =~= all.skip(i + 1));
                    }
                    if text::same(m[i].0.as_str(), key) {
                        return Some(&m[i].1);
                    }
                    i += 1;
                }
                None
            },
            _ => None,
        }
    }

    /// The item at place `i`, if this is a list that has it.
    pub fn at(&self, i: usize) -> (r: Option<&Json>)
        ensures
            text::opt(r) == (match self@ {
                Doc::List(v) => if i < v.len() {
                    Some(v[i as int])
                } else {
                    None
                },
                _ => None,
            }),
    {
        match self {
            Json::List(v) => if i < v.len() {
                Some(&v[i])
            } else {
                None
            },
            _ => None,
        }
    }

    /// The text, if this is one.
    pub fn as_text(&self) -> (r: Option<&String>)
        ensures
            text::opt(r) == (match self@ {
                Doc::Text(s) => Some(s),
                _ => None,
            }),
    {
        match self {
            Json::Text(s) => Some(s),
            _ => None,
        }
    }
}

} // verus!
