use vstd::prelude::*;
use vstd::string::*;
use crate::json::{Json, bind, lookup, member, text_of};
use crate::text::{find_first, first_index, lemma_first_index_bounds, slice};

verus! {

/// What `str::trim` yields: the text without leading and trailing whitespace.
pub uninterp spec fn trim_of(s: Seq<char>) -> Seq<char>;

/// Relies on `str::trim`: the text with leading and trailing whitespace
/// removed; it depends on the characters alone.
#[verifier::external_body]
fn trim(s: &str) -> (r: String)
    ensures
        r@ == trim_of(s@),
{
    s.trim().to_owned()
}

/// The answer to a prompt: the trimmed input, or `default` where nothing but
/// whitespace was typed.
pub fn answer_or_default(input: &str, default: &str) -> (r: String)
    ensures
        r@ == (if trim_of(input@).len() == 0 {
            default@
        } else {
            trim_of(input@)
        }),
{
    let t = trim(input);
    if t.as_str().unicode_len() == 0 {
        default.to_owned()
    } else {
        t
    }
}

/// The pieces of `s` between commas, in order; one piece without a comma.
pub open spec fn split_commas(s: Seq<char>) -> Seq<Seq<char>>
    decreases s.len(),
{
    let k = first_index(s, ',');
    if k < 0 || k >= s.len() {
        seq![s]
    } else {
        seq![s.subrange(0, k)] + split_commas(s.subrange(k + 1, s.len() as int))
    }
}

/// The answers that describe a new project.
pub struct InitAnswers {
    pub package_name: String,
    pub version: String,
    pub description: String,
    pub entry_point: String,
    pub test_command: String,
    pub git_repository: String,
    pub keywords: String,
    pub author: String,
    pub license: String,
}

/// The keyword list of a new manifest: the comma-separated pieces, trimmed.
pub open spec fn keyword_list(keywords: Seq<char>) -> Seq<Seq<char>> {
    split_commas(keywords).map_values(|k: Seq<char>| trim_of(k))
}

/// The JSON strings of an array, or `None` where an item is not a string.
pub open spec fn texts(items: Seq<Json>) -> Seq<Option<Seq<char>>> {
    items.map_values(|j: Json| text_of(Some(j)))
}

/// Splits `keywords` at commas and trims each piece.
fn keyword_array(keywords: &str) -> (r: Vec<Json>)
    ensures
        texts(r@) == keyword_list(keywords@).map_values(|k: Seq<char>| Some(k)),
{
    let mut out: Vec<Json> = Vec::new();
    let mut rest = keywords.to_owned();
    loop
        invariant
            texts(out@) + keyword_list(rest@).map_values(|k: Seq<char>| Some(k)) == keyword_list(
                keywords@,
            ).map_values(|k: Seq<char>| Some(k)),
        decreases rest@.len(),
    {
        let ghost before = out@;
        let ghost r0 = rest@;
        proof {
            lemma_first_index_bounds(rest@, ',');
        }
        match find_first(rest.as_str(), ',') {
            None => {
                out.push(Json::Str(trim(rest.as_str())));
                assert(split_commas(r0) == seq![r0]);
                assert(texts(out@) =~= texts(before) + keyword_list(r0).map_values(|k: Seq<char>| Some(k)));
                return out;
            },
            Some(k) => {
                let n = rest.as_str().unicode_len();
                let piece = slice(rest.as_str(), 0, k);
                let tail = slice(rest.as_str(), k + 1, n);
                out.push(Json::Str(trim(piece.as_str())));
                assert(split_commas(r0) == seq![piece@] + split_commas(tail@));
                assert(keyword_list(r0).map_values(|k: Seq<char>| Some(k)) =~= seq![Some(trim_of(piece@))] + keyword_list(
                    tail@,
                ).map_values(|k: Seq<char>| Some(k)));
                assert(texts(out@) =~= texts(before).push(Some(trim_of(piece@))));
                assert(texts(out@) + keyword_list(tail@).map_values(|k: Seq<char>| Some(k)) =~= texts(before)
                    + keyword_list(r0).map_values(|k: Seq<char>| Some(k)));
                rest = tail;
            },
        }
    }
}

/// The manifest that `init` writes for a new project.
pub open spec fn is_init_manifest(m: Json, a: InitAnswers) -> bool {
    &&& m is Object
    &&& text_of(member(m, "name"@)) == Some(a.package_name@)
    &&& text_of(member(m, "version"@)) == Some(a.version@)
    &&& text_of(member(m, "description"@)) == Some(a.description@)
    &&& text_of(member(m, "main"@)) == Some(a.entry_point@)
    &&& text_of(crate::json::member_in(member(m, "scripts"@), "test"@)) == Some(a.test_command@)
    &&& text_of(crate::json::member_in(member(m, "repository"@), "type"@)) == Some("git"@)
    &&& text_of(crate::json::member_in(member(m, "repository"@), "url"@)) == Some(a.git_repository@)
    &&& member(m, "keywords"@) matches Some(Json::Array(v)) && texts(v@) == keyword_list(a.keywords@).map_values(
        |k: Seq<char>| Some(k),
    )
    &&& text_of(member(m, "author"@)) == Some(a.author@)
    &&& text_of(member(m, "license"@)) == Some(a.license@)
}

/// The manifest of a new project described by `a`.
pub fn initialize_node(a: &InitAnswers) -> (r: Json)
    ensures
        is_init_manifest(r, *a),
{
    proof {
        reveal_strlit("name");
        reveal_strlit("version");
        reveal_strlit("description");
        reveal_strlit("main");
        reveal_strlit("scripts");
        reveal_strlit("repository");
        reveal_strlit("keywords");
        reveal_strlit("author");
        reveal_strlit("license");
        reveal_strlit("type");
        reveal_strlit("url");
    }
    assert("name"@[0] == 'n' && "version"@[0] == 'v' && "description"@[0] == 'd' && "main"@[0] == 'm');
    assert("scripts"@[0] == 's' && "repository"@[0] == 'r' && "keywords"@[0] == 'k' && "author"@[0] == 'a');
    assert("license"@[0] == 'l' && "type"@[0] == 't' && "url"@[0] == 'u');
    let scripts = bind(Vec::new(), "test".to_owned(), Json::string(a.test_command.as_str()));
    let repo0 = bind(Vec::new(), "type".to_owned(), Json::string("git"));
    let repo = bind(repo0, "url".to_owned(), Json::string(a.git_repository.as_str()));
    let words = keyword_array(a.keywords.as_str());
    let m0 = bind(Vec::new(), "name".to_owned(), Json::string(a.package_name.as_str()));
    let m1 = bind(m0, "version".to_owned(), Json::string(a.version.as_str()));
    let m2 = bind(m1, "description".to_owned(), Json::string(a.description.as_str()));
    let m3 = bind(m2, "main".to_owned(), Json::string(a.entry_point.as_str()));
    let m4 = bind(m3, "scripts".to_owned(), Json::Object(scripts));
    let m5 = bind(m4, "repository".to_owned(), Json::Object(repo));
    let m6 = bind(m5, "keywords".to_owned(), Json::Array(words));
    let m7 = bind(m6, "author".to_owned(), Json::string(a.author.as_str()));
    let m8 = bind(m7, "license".to_owned(), Json::string(a.license.as_str()));
    assert(text_of(lookup(m8@, "name"@)) == Some(a.package_name@));
    assert(text_of(lookup(m8@, "version"@)) == Some(a.version@));
    assert(text_of(lookup(m8@, "description"@)) == Some(a.description@));
    assert(text_of(lookup(m8@, "main"@)) == Some(a.entry_point@));
    Json::Object(m8)
}

} // verus!
