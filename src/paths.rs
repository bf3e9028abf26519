//! Slash-separated paths, as the archive and the plans write them.

use vstd::prelude::*;
use vstd::string::*;
use crate::text::{chars_of, find_last, last_index_of, lemma_last_index_of_bounds};

verus! {

/// `b` below the directory `a`.
pub open spec fn join(a: Seq<char>, b: Seq<char>) -> Seq<char> {
    a + seq!['/'] + b
}

/// The final segment of a slash-separated path.
pub open spec fn base_name(p: Seq<char>) -> Seq<char> {
    p.subrange(last_index_of(p, '/') + 1, p.len() as int)
}

/// The directory below `root` that holds the path `p`.
pub open spec fn parent_dir(root: Seq<char>, p: Seq<char>) -> Seq<char> {
    let i = last_index_of(p, '/');
    if i >= 0 {
        join(root, p.subrange(0, i))
    } else {
        root
    }
}

/// `b` below the directory `a`.
pub fn join_path(a: &str, b: &str) -> (r: String)
    ensures
        r@ == join(a@, b@),
{
    proof {
        reveal_strlit("/");
    }
    assert("/"@ =~= seq!['/']);
    String::from_str(a).concat("/").concat(b)
}

/// The final segment of `p`.
pub fn base_name_of(p: &str) -> (r: String)
    ensures
        r@ == base_name(p@),
{
    proof {
        lemma_last_index_of_bounds(p@, '/');
    }
    let chars = chars_of(p);
    match find_last(&chars, '/') {
        Some(i) => String::from_str(p.substring_char(i + 1, chars.len())),
        None => {
            let r = String::from_str(p);
            assert(r@ =~= base_name(p@));
            r
        },
    }
}

/// The directory below `root` that holds `p`.
pub fn parent_dir_of(root: &str, p: &str) -> (r: String)
    ensures
        r@ == parent_dir(root@, p@),
{
    proof {
        lemma_last_index_of_bounds(p@, '/');
    }
    let chars = chars_of(p);
    match find_last(&chars, '/') {
        Some(i) => join_path(root, p.substring_char(0, i)),
        None => String::from_str(root),
    }
}

} // verus!
