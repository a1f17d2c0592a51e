//! Files that are served as they are.

use vstd::prelude::*;

use crate::text::{
    contains, nothing_is_removed_in_vain, occurrences_are_cut_out, occurrences_stand_between,
    occurs, remove_all, stands_at, without,
};

verus! {

/// A file to be served: where it lies, and how long it may be cached where that is said.
#[derive(Debug)]
pub struct Asset {
    pub path: String,
    pub cache_control: Option<String>,
}

/// Where the file for a path of a URL lies.
pub open spec fn asset_path(url_path: Seq<char>) -> Seq<char> {
    "./assets"@ + without(url_path, "/fs"@)
}

/// Whether a file may be cached for good: style sheets and scripts, told by their path.
pub open spec fn is_lasting(path: Seq<char>) -> bool {
    occurs(path, ".css"@) || occurs(path, ".js"@)
}

/// The file to be served for a path of a URL.
pub fn serve_dir(url_path: &str) -> (r: Asset)
    ensures
        r.path@ == asset_path(url_path@),
        is_lasting(r.path@) <==> r.cache_control is Some,
        r.cache_control is Some ==> r.cache_control->0@ == "max-age=31536000, immutable"@,
{
    proof {
        reveal_strlit("/fs");
    }
    let rest = remove_all(url_path, "/fs");
    let path = "./assets".to_owned().concat(rest.as_str());
    let cache_control = if contains(path.as_str(), ".css") || contains(path.as_str(), ".js") {
        Some("max-age=31536000, immutable".to_owned())
    } else {
        None
    };
    Asset { path, cache_control }
}

/// The status of the answer where a file cannot be read: only a missing one gets an answer, any
/// other failure is passed on.
pub fn unreadable_status(missing: bool) -> (r: Option<u16>)
    ensures
        r == if missing {
            Some(404u16)
        } else {
            None
        },
{
    if missing {
        Some(404)
    } else {
        None
    }
}

/// A path of a URL in which the mark of the file routes does not stand is looked for below the
/// assets as it is; where it stands, it is cut out, and so in what is behind it.
pub proof fn assets_lie_below_their_directory(before: Seq<char>, after: Seq<char>)
    ensures
        !occurs(after, "/fs"@) ==> asset_path(after) == "./assets"@ + after,
        (forall|i: int|
            0 <= i < before.len() ==> !#[trigger] stands_at(before + "/fs"@ + after, "/fs"@, i))
            ==> asset_path(before + "/fs"@ + after) == "./assets"@ + before + asset_path(
            after,
        ).skip("./assets"@.len() as int),
{
    reveal_strlit("/fs");
    let mark = "/fs"@;
    if !occurs(after, mark) {
        nothing_is_removed_in_vain(after, mark);
    }
    if forall|i: int|
        0 <= i < before.len() ==> !#[trigger] stands_at(before + mark + after, mark, i) {
        occurrences_are_cut_out(before, mark, after);
        assert(("./assets"@ + without(after, mark)).skip("./assets"@.len() as int) =~= without(
            after,
            mark,
        ));
        assert("./assets"@ + (before + without(after, mark)) =~= "./assets"@ + before + without(
            after,
            mark,
        ));
    }
}

/// A file may be cached for good exactly where its path has the ending of a style sheet or of a
/// script anywhere in it.
pub proof fn style_sheets_and_scripts_last(path: Seq<char>)
    ensures
        is_lasting(path) <==> {
            ||| exists|a: Seq<char>, b: Seq<char>| path == #[trigger] (a + ".css"@ + b)
            ||| exists|a: Seq<char>, b: Seq<char>| path == #[trigger] (a + ".js"@ + b)
        },
{
    occurrences_stand_between(path, ".css"@);
    occurrences_stand_between(path, ".js"@);
}

} // verus!
