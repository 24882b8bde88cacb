//! File-system paths as text, with `/` between their components.

use crate::text::{concat2, concat3};
use vstd::prelude::*;
use vstd::string::*;

verus! {

/// `rel` taken from inside `base`: an absolute `rel` stands alone; otherwise
/// `rel` follows `base`, after a `/` unless `base` is empty or ends in one.
pub open spec fn joined(base: Seq<char>, rel: Seq<char>) -> Seq<char> {
    if rel.len() > 0 && rel[0] == '/' {
        rel
    } else if base.len() > 0 && base.last() != '/' {
        base + seq!['/'] + rel
    } else {
        base + rel
    }
}

/// Whether `s` ends in `suffix`.
pub open spec fn ends_with(s: Seq<char>, suffix: Seq<char>) -> bool {
    s.len() >= suffix.len() && s.subrange(s.len() - suffix.len(), s.len() as int) == suffix
}

/// A path ends in what was joined to it.
pub proof fn lemma_joined_ends_with(base: Seq<char>, rel: Seq<char>)
    ensures
        ends_with(joined(base, rel), rel),
{
    let j = joined(base, rel);
    assert(j.subrange(j.len() - rel.len(), j.len() as int) =~= rel);
}

/// What ends in a text ends in each of that text's endings.
pub proof fn lemma_ends_with_transitive(s: Seq<char>, middle: Seq<char>, suffix: Seq<char>)
    requires
        ends_with(s, middle),
        ends_with(middle, suffix),
    ensures
        ends_with(s, suffix),
{
    let m = s.subrange(s.len() - middle.len(), s.len() as int);
    assert(m.subrange(m.len() - suffix.len(), m.len() as int) =~= s.subrange(
        s.len() - suffix.len(),
        s.len() as int,
    ));
}

/// The path of `rel` inside `base`.
pub fn join_path(base: &str, rel: &str) -> (r: String)
    ensures
        r@ == joined(base@, rel@),
{
    proof {
        reveal_strlit("/");
        assert("/"@ =~= seq!['/']);
    }
    let n: usize = base.unicode_len();
    if rel.unicode_len() > 0 && rel.get_char(0) == '/' {
        rel.to_owned()
    } else if n > 0 && base.get_char(n - 1) != '/' {
        concat3(base, "/", rel)
    } else {
        concat2(base, rel)
    }
}

} // verus!
