//! Derivation of the registrable root domain from a fully-qualified
//! domain name: the last two dot-separated labels, or the whole name
//! when it has fewer than two labels. This deliberately simple rule
//! mis-handles multi-label public suffixes and is kept as the
//! documented behaviour.

use vstd::prelude::*;

verus! {

/// Number of `'.'` characters in `s`.
pub open spec fn dot_count(s: Seq<char>) -> nat
    decreases s.len(),
{
    if s.len() == 0 {
        0
    } else {
        dot_count(s.drop_last()) + if s.last() == '.' {
            1nat
        } else {
            0nat
        }
    }
}

/// The registrable root of `s`: the shortest suffix that still holds at
/// most one dot, i.e. the last two labels (or all of `s` when it has at
/// most one dot).
pub open spec fn root_of(s: Seq<char>) -> Seq<char>
    decreases s.len(),
{
    if dot_count(s) <= 1 {
        s
    } else {
        root_of(s.drop_first())
    }
}

/// Counts the dots in `s` at positions `from..`.
fn dots_from(s: &str, from: usize, len: usize) -> (n: usize)
    requires
        from <= len,
        len == s@.len(),
    ensures
        n == dot_count(s@.subrange(from as int, len as int)),
        n <= len - from,
{
    let mut n: usize = 0;
    let mut i: usize = from;
    while i < len
        invariant
            from <= i <= len,
            len == s@.len(),
            n == dot_count(s@.subrange(from as int, i as int)),
            n <= i - from,
        decreases len - i,
    {
        let c = s.get_char(i);
        proof {
            assert(s@.subrange(from as int, i + 1int).drop_last() =~= s@.subrange(
                from as int,
                i as int,
            ));
            assert(s@.subrange(from as int, i + 1int).last() == s@.index(i as int));
        }
        if c == '.' {
            n = n + 1;
        }
        i = i + 1;
    }
    n
}

/// Root domain of `domain`: with at least two dot-separated labels, the
/// last two joined by a dot; otherwise the domain unchanged.
pub fn extract_root_domain(domain: &str) -> (r: String)
    ensures
        r@ == root_of(domain@),
{
    let len = domain.unicode_len();
    let mut start: usize = 0;
    proof {
        assert(domain@.subrange(0int, len as int) =~= domain@);
    }
    while dots_from(domain, start, len) > 1
        invariant
            start <= len,
            len == domain@.len(),
            root_of(domain@) == root_of(domain@.subrange(start as int, len as int)),
        decreases len - start,
    {
        proof {
            let suffix = domain@.subrange(start as int, len as int);
            assert(suffix.drop_first() =~= domain@.subrange(start + 1int, len as int));
        }
        start = start + 1;
    }
    proof {
        let suffix = domain@.subrange(start as int, len as int);
        assert(root_of(suffix) == suffix);
        assert(domain@.subrange(0int, len as int) =~= domain@);
    }
    let root = domain.substring_char(start, len);
    root.to_owned()
}

} // verus!
