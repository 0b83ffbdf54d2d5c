use vstd::prelude::*;
use crate::text::same_text;

verus! {

/// A JSON document held as plain values. Numbers keep the text they were
/// written with; an object is a list of members, the last one of a key
/// being the one that counts.
#[derive(Debug, PartialEq)]
pub enum Json {
    Null,
    Bool(bool),
    Number(String),
    Str(String),
    Array(Vec<Json>),
    Object(Vec<(String, Json)>),
}

/// The value of `key` among `members` (its last occurrence).
pub open spec fn lookup(members: Seq<(String, Json)>, key: Seq<char>) -> Option<Json>
    decreases members.len(),
{
    if members.len() == 0 {
        None
    } else if members.last().0@ == key {
        Some(members.last().1)
    } else {
        lookup(members.drop_last(), key)
    }
}

/// `members` with every member of key `key` left out, order kept.
pub open spec fn without(members: Seq<(String, Json)>, key: Seq<char>) -> Seq<(String, Json)>
    decreases members.len(),
{
    if members.len() == 0 {
        members
    } else if members.last().0@ == key {
        without(members.drop_last(), key)
    } else {
        without(members.drop_last(), key).push(members.last())
    }
}

/// The value of `key` in `j` when `j` is an object.
pub open spec fn member(j: Json, key: Seq<char>) -> Option<Json> {
    match j {
        Json::Object(m) => lookup(m@, key),
        _ => None,
    }
}

/// The value under `key` in `j`, where `j` is present and an object.
pub open spec fn member_in(j: Option<Json>, key: Seq<char>) -> Option<Json> {
    match j {
        Some(x) => member(x, key),
        None => None,
    }
}

/// The text of `j` when it is a JSON string.
pub open spec fn text_of(j: Option<Json>) -> Option<Seq<char>> {
    match j {
        Some(Json::Str(s)) => Some(s@),
        _ => None,
    }
}

/// The members of `j` when it is an object.
pub open spec fn members_of(j: Option<Json>) -> Option<Seq<(String, Json)>> {
    match j {
        Some(Json::Object(m)) => Some(m@),
        _ => None,
    }
}

pub proof fn lemma_lookup_without(members: Seq<(String, Json)>, key: Seq<char>, other: Seq<char>)
    ensures
        lookup(without(members, key), other) == (if other == key {
            None
        } else {
            lookup(members, other)
        }),
    decreases members.len(),
{
    if members.len() > 0 {
        lemma_lookup_without(members.drop_last(), key, other);
        let w = without(members.drop_last(), key);
        assert(w.push(members.last()).drop_last() =~= w);
    }
}

pub proof fn lemma_lookup_set(members: Seq<(String, Json)>, k: String, v: Json, other: Seq<char>)
    ensures
        lookup(without(members, k@).push((k, v)), other) == (if other == k@ {
            Some(v)
        } else {
            lookup(members, other)
        }),
{
    let w = without(members, k@);
    assert(w.push((k, v)).drop_last() =~= w);
    lemma_lookup_without(members, k@, other);
}

/// The value of `key` among `members`, by reference.
pub fn find<'a>(members: &'a Vec<(String, Json)>, key: &str) -> (r: Option<&'a Json>)
    ensures
        match r {
            Some(v) => lookup(members@, key@) == Some(*v),
            None => lookup(members@, key@) is None,
        },
{
    let mut i: usize = members.len();
    assert(members@.subrange(0, i as int) =~= members@);
    while i > 0
        invariant
            i <= members@.len(),
            lookup(members@, key@) == lookup(members@.subrange(0, i as int), key@),
        decreases i,
    {
        let ghost pre = members@.subrange(0, i as int);
        assert(pre.drop_last() =~= members@.subrange(0, i - 1));
        let m = &members[i - 1];
        if same_text(m.0.as_str(), key) {
            return Some(&m.1);
        }
        i = i - 1;
    }
    None
}

/// Splits `members` into the value of `key` and the members of other keys.
pub fn take(members: Vec<(String, Json)>, key: &str) -> (r: (Option<Json>, Vec<(String, Json)>))
    ensures
        r.0 == lookup(members@, key@),
        r.1@ == without(members@, key@),
{
    let ghost all = members@;
    let mut rest = members;
    let mut kept: Vec<(String, Json)> = Vec::new();
    let mut found: Option<Json> = None;
    let mut i: usize = 0;
    let n = rest.len();
    assert(all.subrange(0, 0) =~= Seq::<(String, Json)>::empty());
    while rest.len() > 0
        invariant
            n == all.len(),
            i <= n,
            rest@ == all.subrange(i as int, n as int),
            kept@ == without(all.subrange(0, i as int), key@),
            found == lookup(all.subrange(0, i as int), key@),
        decreases rest.len(),
    {
        let m = rest.remove(0);
        assert(all.subrange(0, i + 1).drop_last() =~= all.subrange(0, i as int));
        assert(all.subrange(0, i + 1).last() == all[i as int]);
        assert(all.subrange(i as int, n as int)[0] == all[i as int]);
        assert(all.subrange(i as int, n as int).remove(0) =~= all.subrange(i + 1, n as int));
        if same_text(m.0.as_str(), key) {
            found = Some(m.1);
        } else {
            kept.push(m);
        }
        i = i + 1;
    }
    assert(all.subrange(0, n as int) =~= all);
    (found, kept)
}

/// `members` with `key` bound to `value`, replacing any earlier binding.
pub fn bind(members: Vec<(String, Json)>, key: String, value: Json) -> (r: Vec<(String, Json)>)
    ensures
        r@ == without(members@, key@).push((key, value)),
        forall|other: Seq<char>| #[trigger] lookup(r@, other) == (if other == key@ {
            Some(value)
        } else {
            lookup(members@, other)
        }),
{
    let (_, mut rest) = take(members, key.as_str());
    proof {
        assert forall|other: Seq<char>| #[trigger] lookup(without(members@, key@).push((key, value)), other) == (if other == key@ {
            Some(value)
        } else {
            lookup(members@, other)
        }) by {
            lemma_lookup_set(members@, key, value, other);
        }
    }
    rest.push((key, value));
    rest
}

impl Json {
    /// The value of `key` when this is an object that has it.
    pub fn get(&self, key: &str) -> (r: Option<&Json>)
        ensures
            match r {
                Some(v) => member(*self, key@) == Some(*v),
                None => member(*self, key@) is None,
            },
    {
        match self {
            Json::Object(m) => find(m, key),
            _ => None,
        }
    }

    /// The text when this is a JSON string.
    pub fn as_str(&self) -> (r: Option<&String>)
        ensures
            match r {
                Some(s) => text_of(Some(*self)) == Some(s@),
                None => text_of(Some(*self)) is None,
            },
    {
        match self {
            Json::Str(s) => Some(s),
            _ => None,
        }
    }

    /// A JSON string holding `s`.
    pub fn string(s: &str) -> (r: Json)
        ensures
            text_of(Some(r)) == Some(s@),
    {
        Json::Str(s.to_owned())
    }
}

} // verus!
