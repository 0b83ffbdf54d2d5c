use vstd::prelude::*;
use vstd::string::*;
use crate::json::{Json, member, members_of};
use crate::text::{first_index, find_first, lemma_first_index_bounds, same_text, slice};

verus! {

/// Which release of a package is asked for.
#[derive(Debug, Clone, PartialEq)]
pub enum Selector {
    Latest,
    Exact(String),
}

/// A package name with the release asked for.
#[derive(Debug, Clone, PartialEq)]
pub struct PackageRequest {
    pub name: String,
    pub selector: Selector,
}

/// The exact version a selector asks for; `None` for the latest release.
pub open spec fn selector_view(s: Selector) -> Option<Seq<char>> {
    match s {
        Selector::Latest => None,
        Selector::Exact(v) => Some(v@),
    }
}

/// The package name of a request written `name` or `name@selector`.
pub open spec fn request_name(s: Seq<char>) -> Seq<char> {
    let p = first_index(s, '@');
    if p < 0 {
        s
    } else {
        s.subrange(0, p)
    }
}

/// The selector text after the first `@`, up to a second `@` if there is one.
pub open spec fn selector_text(s: Seq<char>) -> Option<Seq<char>> {
    let p = first_index(s, '@');
    if p < 0 {
        None
    } else {
        let rest = s.subrange(p + 1, s.len() as int);
        let q = first_index(rest, '@');
        Some(if q < 0 { rest } else { rest.subrange(0, q) })
    }
}

/// The exact version asked for by `name@selector`; `None` where there is no
/// selector or it is `latest`.
pub open spec fn requested_version(s: Seq<char>) -> Option<Seq<char>> {
    match selector_text(s) {
        None => None,
        Some(t) => if t == "latest"@ {
            None
        } else {
            Some(t)
        },
    }
}

/// The release that a dependency entry's version text asks for: a caret
/// range is served by the latest release, anything else is taken as exact.
pub open spec fn dependency_version(v: Seq<char>) -> Option<Seq<char>> {
    if v.len() > 0 && v[0] == '^' {
        None
    } else {
        Some(v)
    }
}

/// The requests declared by the members of a `dependencies` object; members
/// whose value is not a string declare nothing.
pub open spec fn declared(members: Seq<(String, Json)>) -> Seq<(Seq<char>, Option<Seq<char>>)>
    decreases members.len(),
{
    if members.len() == 0 {
        Seq::empty()
    } else {
        let rest = declared(members.drop_last());
        match members.last().1 {
            Json::Str(v) => rest.push((members.last().0@, dependency_version(v@))),
            _ => rest,
        }
    }
}

/// The name and exact version (if any) of a request.
pub open spec fn request_view(r: PackageRequest) -> (Seq<char>, Option<Seq<char>>) {
    (r.name@, selector_view(r.selector))
}

/// The requests that a package manifest declares under `dependencies`.
pub open spec fn manifest_requests(manifest: Json) -> Seq<(Seq<char>, Option<Seq<char>>)> {
    match members_of(member(manifest, "dependencies"@)) {
        Some(m) => declared(m),
        None => Seq::empty(),
    }
}

impl PackageRequest {
    /// Splits `name`, `name@latest` or `name@version` into a request.
    pub fn parse(s: &str) -> (r: PackageRequest)
        ensures
            r.name@ == request_name(s@),
            selector_view(r.selector) == requested_version(s@),
    {
        let n = s.unicode_len();
        match find_first(s, '@') {
            None => PackageRequest { name: s.to_owned(), selector: Selector::Latest },
            Some(p) => {
                proof {
                    lemma_first_index_bounds(s@, '@');
                }
                let name = slice(s, 0, p);
                let rest = slice(s, p + 1, n);
                let text = match find_first(rest.as_str(), '@') {
                    None => rest,
                    Some(q) => {
                        proof {
                            lemma_first_index_bounds(rest@, '@');
                        }
                        slice(rest.as_str(), 0, q)
                    },
                };
                if same_text(text.as_str(), "latest") {
                    PackageRequest { name, selector: Selector::Latest }
                } else {
                    PackageRequest { name, selector: Selector::Exact(text) }
                }
            },
        }
    }

    /// The request for a dependency declared with version text `version`.
    pub fn for_dependency(name: &str, version: &str) -> (r: PackageRequest)
        ensures
            r.name@ == name@,
            selector_view(r.selector) == dependency_version(version@),
    {
        let n = version.unicode_len();
        if n > 0 && version.get_char(0) == '^' {
            PackageRequest { name: name.to_owned(), selector: Selector::Latest }
        } else {
            PackageRequest { name: name.to_owned(), selector: Selector::Exact(version.to_owned()) }
        }
    }
}

/// The requests for the dependencies that a package's own manifest declares.
/// A manifest with no `dependencies` object declares none.
pub fn dependency_requests(manifest: &Json) -> (r: Vec<PackageRequest>)
    ensures
        r@.map_values(|q: PackageRequest| request_view(q)) == manifest_requests(*manifest),
{
    let mut out: Vec<PackageRequest> = Vec::new();
    match manifest.get("dependencies") {
        Some(Json::Object(members)) => {
            let mut i: usize = 0;
            assert(members@.subrange(0, 0) =~= Seq::<(String, Json)>::empty());
            while i < members.len()
                invariant
                    i <= members@.len(),
                    out@.map_values(|q: PackageRequest| request_view(q)) == declared(members@.subrange(0, i as int)),
                decreases members@.len() - i,
            {
                assert(members@.subrange(0, i + 1).drop_last() =~= members@.subrange(0, i as int));
                let m = &members[i];
                let ghost before = out@;
                match &m.1 {
                    Json::Str(v) => {
                        let q = PackageRequest::for_dependency(m.0.as_str(), v.as_str());
                        out.push(q);
                        assert(out@.map_values(|q: PackageRequest| request_view(q)) =~= before.map_values(|q: PackageRequest| request_view(q)).push(request_view(q)));
                    },
                    _ => {},
                }
                i = i + 1;
            }
            assert(members@.subrange(0, members@.len() as int) =~= members@);
        },
        _ => {
            assert(out@.map_values(|q: PackageRequest| request_view(q)) =~= Seq::empty());
        },
    }
    out
}

} // verus!
