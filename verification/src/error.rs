//! The error model: syntax errors located at a token index, semantic
//! size errors, and output failures.
//!
//! Every parsing function returns a `Result`; the first error aborts the
//! parse and is handed to the caller unchanged.

use vstd::prelude::*;

use crate::Output;

verus! {

/// Everything that can go wrong between `argv` and a written icon.
///
/// `AlreadyIncluded` is raised by the icon builder consuming the parsed
/// command, not by the parser itself; `Io` stands for a failure writing
/// the artifact to the given destination.  Both are representable here so
/// that one type carries every diagnostic.
#[derive(Debug, PartialEq, Eq)]
pub enum Error {
    Syntax(SyntaxError),
    AlreadyIncluded(u32),
    InvalidDimensions(u32),
    Io(Output),
}

/// A grammar violation, located for diagnostics.
#[derive(Copy, Clone, Debug, PartialEq, Eq)]
pub enum SyntaxError {
    /// The token at this zero-based argument index broke the grammar.
    UnexpectedToken(usize),
    /// Input ran out where the grammar required more tokens.
    UnexpectedEnd,
}

/// Every `UnexpectedToken` in `r` carries a position below `n`: the
/// diagnostic can show the offending argument in its context.
pub open spec fn position_within<T>(r: Result<T, Error>, n: int) -> bool {
    match r {
        Err(Error::Syntax(SyntaxError::UnexpectedToken(c))) => (c as int) < n,
        _ => true,
    }
}

/// Argument strings joined by single spaces, as the diagnostics print
/// them.
pub open spec fn join_spaces(parts: Seq<Seq<char>>) -> Seq<char>
    decreases parts.len(),
{
    if parts.len() == 0 {
        Seq::empty()
    } else if parts.len() == 1 {
        parts[0]
    } else {
        parts[0] + seq![' '] + join_spaces(parts.subrange(1, parts.len() as int))
    }
}

/// Appending one part joins it after a space, unless it is the first.
proof fn lemma_join_snoc(parts: Seq<Seq<char>>, y: Seq<char>)
    ensures
        join_spaces(parts.push(y)) == if parts.len() == 0 {
            y
        } else {
            join_spaces(parts) + seq![' '] + y
        },
    decreases parts.len(),
{
    let w = parts.push(y);
    if parts.len() == 0 {
        assert(w.len() == 1);
        assert(w[0] == y);
    } else {
        let sub = parts.subrange(1, parts.len() as int);
        assert(w.subrange(1, w.len() as int) =~= sub.push(y));
        lemma_join_snoc(sub, y);
        assert(w[0] == parts[0]);
        if parts.len() == 1 {
            assert(sub.len() == 0);
            assert(join_spaces(w) == parts[0] + seq![' '] + y);
        } else {
            assert(join_spaces(w) == parts[0] + seq![' '] + (join_spaces(sub) + seq![' '] + y));
            assert(parts[0] + seq![' '] + (join_spaces(sub) + seq![' '] + y) =~= (parts[0]
                + seq![' '] + join_spaces(sub)) + seq![' '] + y);
        }
    }
}

/// Joins the argument strings with indices in `lo..hi` with spaces.
pub fn joined(args: &Vec<String>, lo: usize, hi: usize) -> (r: String)
    requires
        lo <= hi <= args@.len(),
    ensures
        r@ == join_spaces(args.deep_view().subrange(lo as int, hi as int)),
{
    let ghost parts = args.deep_view();
    let mut out = String::new();
    let mut i: usize = lo;
    proof {
        reveal_strlit(" ");
        assert(parts.subrange(lo as int, lo as int) =~= Seq::<Seq<char>>::empty());
    }
    while i < hi
        invariant
            lo <= i <= hi <= args@.len(),
            parts == args.deep_view(),
            out@ == join_spaces(parts.subrange(lo as int, i as int)),
            " "@ == seq![' '],
        decreases hi - i,
    {
        if i > lo {
            out.append(" ");
        }
        out.append(args[i].as_str());
        proof {
            let pre = parts.subrange(lo as int, i as int);
            assert(parts.subrange(lo as int, i as int + 1) =~= pre.push(parts[i as int]));
            lemma_join_snoc(pre, parts[i as int]);
            assert(args[i as int]@ == parts[i as int]);
        }
        i = i + 1;
    }
    out
}

/// The three pieces of a located diagnostic: the arguments before the
/// offending one joined by spaces, the offending argument itself, and
/// the arguments after it joined by spaces.
pub fn context(args: &Vec<String>, position: usize) -> (r: (String, String, String))
    requires
        position < args@.len(),
    ensures
        r.0@ == join_spaces(args.deep_view().subrange(0, position as int)),
        r.1@ == args.deep_view()[position as int],
        r.2@ == join_spaces(
            args.deep_view().subrange(position as int + 1, args.deep_view().len() as int),
        ),
{
    let n = args.len();
    let before = joined(args, 0, position);
    let at = args[position].clone();
    let after = joined(args, position + 1, n);
    (before, at, after)
}

} // verus!
