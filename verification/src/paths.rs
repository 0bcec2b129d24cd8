//! Slash-separated paths, built from text.

use vstd::prelude::*;

verus! {

/// The separator between two path components.
pub open spec fn separator() -> Seq<char> {
    seq!['/']
}

/// `leaf` placed below `base`.
pub open spec fn spec_join(base: Seq<char>, leaf: Seq<char>) -> Seq<char> {
    base + separator() + leaf
}

/// `stem` with the extension `extension`.
pub open spec fn spec_file_name(stem: Seq<char>, extension: Seq<char>) -> Seq<char> {
    stem + seq!['.'] + extension
}

/// Builds the path of `leaf` below `base`.
pub fn join(base: &str, leaf: &str) -> (path: String)
    ensures
        path@ == spec_join(base@, leaf@),
{
    let mut path = String::from_str(base);
    path.append("/");
    path.append(leaf);
    proof {
        reveal_strlit("/");
        assert("/"@ =~= separator());
    }
    path
}

/// Builds the file name `stem.extension`.
pub fn file_name(stem: &str, extension: &str) -> (name: String)
    ensures
        name@ == spec_file_name(stem@, extension@),
{
    let mut name = String::from_str(stem);
    name.append(".");
    name.append(extension);
    proof {
        reveal_strlit(".");
        assert("."@ =~= seq!['.']);
    }
    name
}

/// Two joined paths are equal exactly when the parts after a common base are.
pub proof fn lemma_join_same_base(base: Seq<char>, first: Seq<char>, second: Seq<char>)
    ensures
        spec_join(base, first) == spec_join(base, second) <==> first == second,
{
    let head = base + separator();
    assert(spec_join(base, first) == head + first);
    assert(spec_join(base, second) == head + second);
    if head + first == head + second {
        assert((head + first).subrange(head.len() as int, (head + first).len() as int) =~= first);
        assert((head + second).subrange(head.len() as int, (head + second).len() as int)
            =~= second);
    }
}

} // verus!
