use vstd::prelude::*;
use crate::json::{Json, member, member_in, text_of};

verus! {

/// The source of script `name` in a manifest's `scripts` object.
pub open spec fn script_of(manifest: Json, name: Seq<char>) -> Option<Seq<char>> {
    text_of(member_in(member(manifest, "scripts"@), name))
}

/// The source of the script that `run <name>` executes, where the manifest
/// declares one.
pub fn script_for(manifest: &Json, script_name: &str) -> (r: Option<String>)
    ensures
        match r {
            Some(s) => script_of(*manifest, script_name@) == Some(s@),
            None => script_of(*manifest, script_name@) is None,
        },
{
    match manifest.get("scripts") {
        Some(scripts) => match scripts.get(script_name) {
            Some(s) => match s.as_str() {
                Some(t) => Some(t.clone()),
                None => None,
            },
            None => None,
        },
        None => None,
    }
}

} // verus!
