//! Source paths: normalization of catalog keys and the file-name rules.
use vstd::prelude::*;

verus! {

/// True when `s` starts with `./`.
pub open spec fn has_dot_slash(s: Seq<char>) -> bool {
    s.len() >= 2 && s[0] == '.' && s[1] == '/'
}

/// A path with every leading `./` removed.
pub open spec fn normalized(s: Seq<char>) -> Seq<char>
    decreases s.len(),
{
    if has_dot_slash(s) {
        normalized(s.subrange(2, s.len() as int))
    } else {
        s
    }
}

/// Strips every leading `./` from `path`, giving the key under which the
/// compiled file is known.
pub fn normalize_path(path: &str) -> (r: String)
    ensures
        r@ == normalized(path@),
{
    let n = path.unicode_len();
    let mut start: usize = 0;
    assert(path@.subrange(0, n as int) =~= path@);
    while n - start >= 2 && path.get_char(start) == '.' && path.get_char(start + 1) == '/'
        invariant
            n == path@.len(),
            start <= n,
            normalized(path@) == normalized(path@.subrange(start as int, n as int)),
        decreases n - start,
    {
        let ghost rest = path@.subrange(start as int, n as int);
        assert(rest.subrange(2, rest.len() as int) =~= path@.subrange(start + 2, n as int));
        start = start + 2;
    }
    assert(!has_dot_slash(path@.subrange(start as int, n as int)));
    let r = path.substring_char(start, n);
    String::from_str(r)
}

/// Normalizing twice gives the same key as normalizing once.
pub proof fn lemma_normalize_idempotent(s: Seq<char>)
    ensures
        normalized(normalized(s)) == normalized(s),
    decreases s.len(),
{
    if has_dot_slash(s) {
        lemma_normalize_idempotent(s.subrange(2, s.len() as int));
    }
}

} // verus!
