//! Parsing combinators shared by the three per-format grammars: entry
//! clauses, the optional resampling filter, the output clause, and the
//! end-of-input check.
//!
//! Each executable combinator is proved to agree with a spec function
//! over the token sequence; the spec functions together are the grammar's
//! reference definition.  All combinators work through the
//! [`TokenStream`] cursor only, so every error carries the index of the
//! offending token.

use vstd::prelude::*;

use crate::command::Command;
use crate::error::{position_within, Error, SyntaxError};
use crate::keys::{check_size, size_valid};
use crate::parse::token::{path_like, Cmd, Flag, Token, TokenModel};
use crate::parse::{bump, TokenStream};
use crate::{EntryModel, Output, OutputModel, ResamplingFilter};

verus! {

/// An entry before key construction: raw size, source path, filter.
pub type RawEntry = (u32, String, ResamplingFilter);

/// Raw entries as their mathematical image.
pub open spec fn raw_entries_model(es: Seq<RawEntry>) -> Seq<EntryModel> {
    es.map_values(|e: RawEntry| (e.0, e.1@, e.2))
}

/// The maximal run of size tokens starting at `i`: the sizes read, and
/// the index of the first token after them.
pub open spec fn size_run(t: Seq<TokenModel>, i: int) -> (Seq<u32>, int)
    decreases t.len() - i,
{
    if i < t.len() && t[i] is Size {
        let (rest, j) = size_run(t, i + 1);
        (seq![t[i]->Size_0] + rest, j)
    } else {
        (Seq::empty(), i)
    }
}

/// An optional resampling clause at `i`: one `Resample` flag followed by
/// exactly one filter token; absent, the filter defaults to `Nearest`.
pub open spec fn spec_filter(t: Seq<TokenModel>, i: int) -> Result<(ResamplingFilter, int), Error> {
    if i < t.len() && t[i] matches TokenModel::Flag(Flag::Resample) {
        if i + 1 < t.len() {
            match t[i + 1] {
                TokenModel::Filter(f) => Ok((f, i + 2)),
                _ => Err(Error::Syntax(SyntaxError::UnexpectedToken((i + 1) as usize))),
            }
        } else {
            Err(Error::Syntax(SyntaxError::UnexpectedEnd))
        }
    } else {
        Ok((ResamplingFilter::Nearest, i))
    }
}

/// Converts the sizes of one clause in order; the first size without a
/// key in format `fmt` aborts with `InvalidDimensions`.
pub open spec fn spec_convert(
    fmt: Cmd,
    sizes: Seq<u32>,
    path: Seq<char>,
    f: ResamplingFilter,
) -> Result<Seq<EntryModel>, Error>
    decreases sizes.len(),
{
    if sizes.len() == 0 {
        Ok(Seq::empty())
    } else if !size_valid(fmt, sizes[0]) {
        Err(Error::InvalidDimensions(sizes[0]))
    } else {
        match spec_convert(fmt, sizes.subrange(1, sizes.len() as int), path, f) {
            Ok(rest) => Ok(seq![(sizes[0], path, f)] + rest),
            Err(e) => Err(e),
        }
    }
}

/// The part of an entry clause after its path token, which stands at
/// `i`: one or more sizes, an optional filter clause, then conversion.
pub open spec fn spec_keys(fmt: Cmd, t: Seq<TokenModel>, i: int, path: Seq<char>) -> Result<
    (Seq<EntryModel>, int),
    Error,
> {
    let si = bump(t, i);
    if si >= t.len() {
        Err(Error::Syntax(SyntaxError::UnexpectedEnd))
    } else if !(t[si] is Size) {
        Err(Error::Syntax(SyntaxError::UnexpectedToken(si as usize)))
    } else {
        let (sizes, j) = size_run(t, si);
        match spec_filter(t, j) {
            Ok((f, k)) => match spec_convert(fmt, sizes, path, f) {
                Ok(es) => Ok((es, k)),
                Err(e) => Err(e),
            },
            Err(e) => Err(e),
        }
    }
}

/// One whole entry clause, starting at the `Entry` flag at `i`: the
/// entries it contributes and the index after the clause.
pub open spec fn spec_entry_clause(fmt: Cmd, t: Seq<TokenModel>, i: int) -> Result<
    (Seq<EntryModel>, int),
    Error,
> {
    let pi = bump(t, i);
    if pi >= t.len() {
        Err(Error::Syntax(SyntaxError::UnexpectedEnd))
    } else {
        match t[pi] {
            TokenModel::Path(p) => spec_keys(fmt, t, pi, p),
            _ => Err(Error::Syntax(SyntaxError::UnexpectedToken(pi as usize))),
        }
    }
}

/// The entries that converting `sizes` appends even where it fails: one
/// entry per valid size before the first invalid one, and nothing for
/// the rejected size or any later one.
pub open spec fn converted_prefix(
    fmt: Cmd,
    sizes: Seq<u32>,
    path: Seq<char>,
    f: ResamplingFilter,
) -> Seq<EntryModel>
    decreases sizes.len(),
{
    if sizes.len() == 0 || !size_valid(fmt, sizes[0]) {
        Seq::empty()
    } else {
        seq![(sizes[0], path, f)] + converted_prefix(
            fmt,
            sizes.subrange(1, sizes.len() as int),
            path,
            f,
        )
    }
}

/// What a failing clause tail has appended to the accumulator when
/// [`spec_keys`] errs: nothing on a syntax error (sizes or filter), the
/// converted prefix once conversion rejects a size.
pub open spec fn spec_keys_partial(fmt: Cmd, t: Seq<TokenModel>, i: int, path: Seq<char>) -> Seq<
    EntryModel,
> {
    let si = bump(t, i);
    if si < t.len() && t[si] is Size {
        let (sizes, j) = size_run(t, si);
        match spec_filter(t, j) {
            Ok((f, k)) => converted_prefix(fmt, sizes, path, f),
            Err(e) => Seq::empty(),
        }
    } else {
        Seq::empty()
    }
}

/// What a failing entry clause has appended to the accumulator when
/// [`spec_entry_clause`] errs.
pub open spec fn spec_entry_clause_partial(fmt: Cmd, t: Seq<TokenModel>, i: int) -> Seq<
    EntryModel,
> {
    let pi = bump(t, i);
    if pi < t.len() {
        match t[pi] {
            TokenModel::Path(p) => spec_keys_partial(fmt, t, pi, p),
            _ => Seq::empty(),
        }
    } else {
        Seq::empty()
    }
}

/// Zero or more entry clauses from `i` on, stopping at the first token
/// that is not an `Entry` flag; entries accumulate in encounter order.
pub open spec fn spec_entries(fmt: Cmd, t: Seq<TokenModel>, i: int) -> Result<
    (Seq<EntryModel>, int),
    Error,
>
    decreases t.len() - i,
{
    if i < t.len() && t[i] matches TokenModel::Flag(Flag::Entry) {
        match spec_entry_clause(fmt, t, i) {
            Ok((es, j)) => {
                if i < j <= t.len() {
                    match spec_entries(fmt, t, j) {
                        Ok((rest, k)) => Ok((es + rest, k)),
                        Err(e) => Err(e),
                    }
                } else {
                    // a clause always advances past its flag; see
                    // `lemma_entry_clause_range`
                    Err(Error::Syntax(SyntaxError::UnexpectedEnd))
                }
            },
            Err(e) => Err(e),
        }
    } else {
        Ok((Seq::empty(), i))
    }
}

/// Nothing may follow: the token after `i`, if any, is unexpected.
pub open spec fn spec_expect_end(t: Seq<TokenModel>, i: int) -> Result<(), Error> {
    let j = bump(t, i);
    if j < t.len() {
        Err(Error::Syntax(SyntaxError::UnexpectedToken(j as usize)))
    } else {
        Ok(())
    }
}

/// An output clause starting at the `Output` flag at `i`: a path must
/// follow, and then the input must end.
pub open spec fn spec_output_clause(t: Seq<TokenModel>, i: int) -> Result<
    (OutputModel, int),
    Error,
> {
    let pi = bump(t, i);
    if pi >= t.len() {
        Err(Error::Syntax(SyntaxError::UnexpectedEnd))
    } else {
        match t[pi] {
            TokenModel::Path(p) => {
                let j = bump(t, pi);
                if j < t.len() {
                    Err(Error::Syntax(SyntaxError::UnexpectedToken(j as usize)))
                } else {
                    Ok((OutputModel::Path(p), j))
                }
            },
            _ => Err(Error::Syntax(SyntaxError::UnexpectedToken(pi as usize))),
        }
    }
}

/// The tail of every format grammar: end of input means `Stdout`, an
/// `Output` flag opens an output clause, anything else is unexpected.
pub open spec fn spec_output_tail(t: Seq<TokenModel>, i: int) -> Result<(OutputModel, int), Error> {
    if i >= t.len() {
        Ok((OutputModel::Stdout, i))
    } else if t[i] matches TokenModel::Flag(Flag::Output) {
        spec_output_clause(t, i)
    } else {
        Err(Error::Syntax(SyntaxError::UnexpectedToken(i as usize)))
    }
}

/// A run of size tokens never moves the cursor backwards or past the end.
pub proof fn lemma_size_run_range(t: Seq<TokenModel>, i: int)
    requires
        0 <= i <= t.len(),
    ensures
        i <= size_run(t, i).1 <= t.len(),
    decreases t.len() - i,
{
    if i < t.len() && t[i] is Size {
        lemma_size_run_range(t, i + 1);
    }
}

/// A successful entry clause consumes at least its flag and path.
pub proof fn lemma_entry_clause_range(fmt: Cmd, t: Seq<TokenModel>, i: int)
    requires
        0 <= i < t.len(),
        spec_entry_clause(fmt, t, i) is Ok,
    ensures
        i < spec_entry_clause(fmt, t, i)->Ok_0.1 <= t.len(),
{
    let pi = bump(t, i);
    let si = bump(t, pi);
    lemma_size_run_range(t, si);
}

/// Converted entries keep their clause's path and filter, and each size
/// is valid for the format.
pub proof fn lemma_convert_shape(fmt: Cmd, sizes: Seq<u32>, path: Seq<char>, f: ResamplingFilter)
    requires
        spec_convert(fmt, sizes, path, f) is Ok,
    ensures
        ({
            let es = spec_convert(fmt, sizes, path, f)->Ok_0;
            &&& es.len() == sizes.len()
            &&& forall|k: int|
                0 <= k < es.len() ==> (#[trigger] es[k]) == (sizes[k], path, f)
            &&& forall|k: int| 0 <= k < es.len() ==> size_valid(fmt, #[trigger] es[k].0)
        }),
    decreases sizes.len(),
{
    if sizes.len() > 0 {
        lemma_convert_shape(fmt, sizes.subrange(1, sizes.len() as int), path, f);
    }
}

/// Where the first `idx` sizes are valid and the next one (if any) is
/// not, the converted prefix is exactly their conversions.
proof fn lemma_converted_prefix_stops(
    fmt: Cmd,
    sizes: Seq<u32>,
    path: Seq<char>,
    f: ResamplingFilter,
    idx: int,
)
    requires
        0 <= idx <= sizes.len(),
        forall|q: int| 0 <= q < idx ==> size_valid(fmt, #[trigger] sizes[q]),
        idx < sizes.len() ==> !size_valid(fmt, sizes[idx]),
    ensures
        converted_prefix(fmt, sizes, path, f) == Seq::new(
            idx as nat,
            |q: int| (sizes[q], path, f),
        ),
    decreases idx,
{
    if idx == 0 {
        assert(converted_prefix(fmt, sizes, path, f) =~= Seq::new(
            0nat,
            |q: int| (sizes[q], path, f),
        ));
    } else {
        let rest = sizes.subrange(1, sizes.len() as int);
        assert forall|q: int| 0 <= q < idx - 1 implies size_valid(fmt, #[trigger] rest[q]) by {
            assert(rest[q] == sizes[q + 1]);
        }
        if idx - 1 < rest.len() {
            assert(rest[idx - 1] == sizes[idx as int]);
        }
        lemma_converted_prefix_stops(fmt, rest, path, f, idx - 1);
        assert(converted_prefix(fmt, sizes, path, f) =~= Seq::new(
            idx as nat,
            |q: int| (sizes[q], path, f),
        ));
    }
}

/// Every entry produced by a run of entry clauses has a size valid for
/// the format.
pub proof fn lemma_entries_valid(fmt: Cmd, t: Seq<TokenModel>, i: int)
    requires
        spec_entries(fmt, t, i) is Ok,
    ensures
        ({
            let es = spec_entries(fmt, t, i)->Ok_0.0;
            forall|k: int| 0 <= k < es.len() ==> size_valid(fmt, #[trigger] es[k].0)
        }),
    decreases t.len() - i,
{
    if i < t.len() && t[i] matches TokenModel::Flag(Flag::Entry) {
        let clause = spec_entry_clause(fmt, t, i);
        if clause is Ok {
            let (es, j) = clause->Ok_0;
            if i < j <= t.len() {
                lemma_entries_valid(fmt, t, j);
                let pi = bump(t, i);
                if pi < t.len() && t[pi] is Path {
                    let si = bump(t, pi);
                    if si < t.len() && t[si] is Size {
                        let (sizes, sj) = size_run(t, si);
                        let fr = spec_filter(t, sj);
                        if fr is Ok {
                            lemma_convert_shape(fmt, sizes, t[pi]->Path_0, fr->Ok_0.0);
                        }
                    }
                }
            }
        }
    }
}

/// Every path token of `t` names a path-like string, as the tokenizer
/// guarantees of what it classifies.
pub open spec fn tokens_path_like(t: Seq<TokenModel>) -> bool {
    forall|q: int|
        0 <= q < t.len() ==> ((#[trigger] t[q]) matches TokenModel::Path(p) ==> path_like(p))
}

/// Where every path token is path-like, every entry a run of entry
/// clauses produces carries a path-like path.
pub proof fn lemma_entries_paths(fmt: Cmd, t: Seq<TokenModel>, i: int)
    requires
        0 <= i,
        tokens_path_like(t),
        spec_entries(fmt, t, i) is Ok,
    ensures
        ({
            let es = spec_entries(fmt, t, i)->Ok_0.0;
            forall|k: int| 0 <= k < es.len() ==> path_like((#[trigger] es[k]).1)
        }),
    decreases t.len() - i,
{
    if i < t.len() && t[i] matches TokenModel::Flag(Flag::Entry) {
        let clause = spec_entry_clause(fmt, t, i);
        if clause is Ok {
            let (es, j) = clause->Ok_0;
            if i < j <= t.len() {
                lemma_entries_paths(fmt, t, j);
                let pi = bump(t, i);
                if pi < t.len() && t[pi] is Path {
                    assert(t[pi] matches TokenModel::Path(p) ==> path_like(p));
                    let si = bump(t, pi);
                    if si < t.len() && t[si] is Size {
                        let (sizes, sj) = size_run(t, si);
                        let fr = spec_filter(t, sj);
                        if fr is Ok {
                            lemma_convert_shape(fmt, sizes, t[pi]->Path_0, fr->Ok_0.0);
                        }
                    }
                }
            }
        }
    }
}

/// Where every path token is path-like, the output tail's path is too.
pub proof fn lemma_output_tail_paths(t: Seq<TokenModel>, i: int)
    requires
        0 <= i,
        tokens_path_like(t),
        spec_output_tail(t, i) is Ok,
    ensures
        ({
            let out = spec_output_tail(t, i)->Ok_0.0;
            out matches OutputModel::Path(p) ==> path_like(p)
        }),
{
    if i < t.len() && t[i] matches TokenModel::Flag(Flag::Output) {
        let pi = bump(t, i);
        if pi < t.len() && t[pi] is Path {
            assert(t[pi] matches TokenModel::Path(p) ==> path_like(p));
        }
    }
}

/// Conversion raises no located error at all.
proof fn lemma_convert_position(
    fmt: Cmd,
    sizes: Seq<u32>,
    path: Seq<char>,
    f: ResamplingFilter,
    n: int,
)
    ensures
        position_within(spec_convert(fmt, sizes, path, f), n),
    decreases sizes.len(),
{
    if sizes.len() > 0 && size_valid(fmt, sizes[0]) {
        lemma_convert_position(fmt, sizes.subrange(1, sizes.len() as int), path, f, n);
    }
}

/// An entry clause only reports positions inside the token list, and on
/// success lands after the tokens it consumed.
proof fn lemma_entry_clause_position(fmt: Cmd, t: Seq<TokenModel>, i: int)
    requires
        0 <= i <= t.len(),
    ensures
        position_within(spec_entry_clause(fmt, t, i), t.len() as int),
{
    let pi = bump(t, i);
    let si = bump(t, pi);
    if pi < t.len() && t[pi] is Path {
        if si < t.len() && t[si] is Size {
            let (sizes, j) = size_run(t, si);
            lemma_size_run_range(t, si);
            match spec_filter(t, j) {
                Ok((f, k)) => {
                    lemma_convert_position(fmt, sizes, t[pi]->Path_0, f, t.len() as int);
                },
                Err(e) => {
                },
            }
        }
    }
}

/// A run of entry clauses only reports positions inside the token list,
/// and on success lands where the run stopped.
pub proof fn lemma_entries_position(fmt: Cmd, t: Seq<TokenModel>, i: int)
    requires
        0 <= i <= t.len(),
    ensures
        position_within(spec_entries(fmt, t, i), t.len() as int),
        spec_entries(fmt, t, i) matches Ok((es, j)) ==> i <= j <= t.len(),
    decreases t.len() - i,
{
    if i < t.len() && t[i] matches TokenModel::Flag(Flag::Entry) {
        lemma_entry_clause_position(fmt, t, i);
        match spec_entry_clause(fmt, t, i) {
            Ok((es, j)) => {
                if i < j <= t.len() {
                    lemma_entries_position(fmt, t, j);
                }
            },
            Err(e) => {
            },
        }
    }
}

/// The output tail only reports positions inside the token list.
pub proof fn lemma_output_tail_position(t: Seq<TokenModel>, i: int)
    requires
        0 <= i <= t.len(),
    ensures
        position_within(spec_output_tail(t, i), t.len() as int),
{
}

/// Reads the optional resampling clause, as [`spec_filter`] says.
fn filter(it: &mut TokenStream) -> (r: Result<ResamplingFilter, Error>)
    requires
        old(it).wf(),
    ensures
        final(it).wf(),
        final(it).toks() == old(it).toks(),
        match spec_filter(old(it).toks(), old(it).pos()) {
            Ok((f, k)) => r matches Ok(af) && af == f && final(it).pos() == k,
            Err(e) => r matches Err(ae) && ae == e,
        },
{
    match it.peek() {
        Some((_, Token::Flag(Flag::Resample))) => {
            it.advance();
            match it.peek() {
                Some((_, Token::Filter(f))) => {
                    it.advance();
                    Ok(f)
                },
                Some((c, _)) => Err(Error::Syntax(SyntaxError::UnexpectedToken(c))),
                None => Err(Error::Syntax(SyntaxError::UnexpectedEnd)),
            }
        },
        _ => Ok(ResamplingFilter::Nearest),
    }
}

/// Reads the sizes and optional filter after an entry's path token and
/// appends the validated entries, as [`spec_keys`] says.  A syntax error
/// leaves the accumulator untouched; an invalid size leaves exactly the
/// entries of the valid sizes before it, never the rejected size or a
/// later one ([`spec_keys_partial`]).
fn keys(it: &mut TokenStream, fmt: Cmd, entries: &mut Vec<RawEntry>, path: &String) -> (r: Result<
    (),
    Error,
>)
    requires
        old(it).wf(),
        old(it).pos() < old(it).toks().len(),
        old(it).toks()[old(it).pos()] == TokenModel::Path(path@),
    ensures
        final(it).wf(),
        final(it).toks() == old(it).toks(),
        match spec_keys(fmt, old(it).toks(), old(it).pos(), path@) {
            Ok((es, k)) => r is Ok && raw_entries_model(final(entries)@) == raw_entries_model(
                old(entries)@,
            ) + es && final(it).pos() == k,
            Err(e) => r matches Err(ae) && ae == e && (match e {
                Error::Syntax(se) => final(entries)@ == old(entries)@,
                Error::InvalidDimensions(sz) => raw_entries_model(final(entries)@)
                    == raw_entries_model(old(entries)@) + spec_keys_partial(
                    fmt,
                    old(it).toks(),
                    old(it).pos(),
                    path@,
                ),
                _ => true,
            }),
        },
{
    let ghost t = old(it).toks();
    let ghost m0 = raw_entries_model(entries@);
    it.advance();
    let ghost si = it.pos();
    let mut sizes: Vec<u32> = Vec::new();
    match it.peek() {
        Some((_, Token::Size(_))) => {
            loop
                invariant
                    it.wf(),
                    it.toks() == t,
                    si <= it.pos() <= t.len(),
                    size_run(t, si).0 == sizes@ + size_run(t, it.pos()).0,
                    size_run(t, si).1 == size_run(t, it.pos()).1,
                ensures
                    it.wf(),
                    it.toks() == t,
                    si <= it.pos() <= t.len(),
                    size_run(t, si) == (sizes@, it.pos()),
                decreases t.len() - it.pos(),
            {
                match it.peek() {
                    Some((_, Token::Size(size))) => {
                        proof {
                            assert(size_run(t, it.pos()).0 == seq![size] + size_run(
                                t,
                                it.pos() + 1,
                            ).0);
                            assert((sizes@ + seq![size]) + size_run(t, it.pos() + 1).0 =~= sizes@
                                + (seq![size] + size_run(t, it.pos() + 1).0));
                        }
                        it.advance();
                        sizes.push(size);
                    },
                    _ => {
                        proof {
                            assert(size_run(t, it.pos()).0 =~= Seq::<u32>::empty());
                            assert(sizes@ + size_run(t, it.pos()).0 =~= sizes@);
                        }
                        break ;
                    },
                }
            }
        },
        Some((c, _)) => {
            return Err(Error::Syntax(SyntaxError::UnexpectedToken(c)));
        },
        None => {
            return Err(Error::Syntax(SyntaxError::UnexpectedEnd));
        },
    }
    let f = match filter(it) {
        Ok(f) => f,
        Err(e) => {
            return Err(e);
        },
    };
    let ghost all_sizes = sizes@;
    let ghost p = path@;
    let ghost kpos = it.pos();
    let mut idx: usize = 0;
    proof {
        assert(all_sizes.subrange(0, all_sizes.len() as int) =~= all_sizes);
        if spec_convert(fmt, all_sizes, p, f) is Ok {
            assert(Seq::new(0nat, |q: int| (all_sizes[q], p, f)) + spec_convert(
                fmt,
                all_sizes,
                p,
                f,
            )->Ok_0 =~= spec_convert(fmt, all_sizes, p, f)->Ok_0);
        }
        assert(raw_entries_model(entries@) =~= m0 + Seq::new(0nat, |q: int| (all_sizes[q], p, f)));
    }
    while idx < sizes.len()
        invariant
            0 <= idx <= sizes@.len(),
            sizes@ == all_sizes,
            it.wf(),
            it.toks() == old(it).toks(),
            it.pos() == kpos,
            t == old(it).toks(),
            p == path@,
            m0 == raw_entries_model(old(entries)@),
            spec_keys(fmt, t, old(it).pos(), p) == match spec_convert(fmt, all_sizes, p, f) {
                Ok(es) => Ok::<(Seq<EntryModel>, int), Error>((es, kpos)),
                Err(e) => Err(e),
            },
            spec_keys_partial(fmt, t, old(it).pos(), p) == converted_prefix(
                fmt,
                all_sizes,
                p,
                f,
            ),
            forall|q: int| 0 <= q < idx ==> size_valid(fmt, #[trigger] all_sizes[q]),
            raw_entries_model(entries@) == m0 + Seq::new(
                idx as nat,
                |q: int| (all_sizes[q], p, f),
            ),
            spec_convert(fmt, all_sizes, p, f) == match spec_convert(
                fmt,
                all_sizes.subrange(idx as int, all_sizes.len() as int),
                p,
                f,
            ) {
                Ok(rest) => Ok::<Seq<EntryModel>, Error>(
                    Seq::new(idx as nat, |q: int| (all_sizes[q], p, f)) + rest,
                ),
                Err(e) => Err(e),
            },
        decreases sizes@.len() - idx,
    {
        let size = sizes[idx];
        let ghost tail = all_sizes.subrange(idx as int, all_sizes.len() as int);
        proof {
            assert(tail[0] == all_sizes[idx as int]);
            assert(tail.subrange(1, tail.len() as int) =~= all_sizes.subrange(
                idx as int + 1,
                all_sizes.len() as int,
            ));
        }
        if check_size(fmt, size) {
            let ghost prev = entries@;
            entries.push((size, path.clone(), f));
            proof {
                let enew = Seq::new((idx + 1) as nat, |q: int| (all_sizes[q], p, f));
                assert(entries@.len() == prev.len() + 1);
                assert(raw_entries_model(prev).len() == prev.len());
                assert(prev.len() == m0.len() + idx);
                assert(raw_entries_model(entries@).len() == m0.len() + idx + 1);
                assert forall|q: int|
                    0 <= q < m0.len() + idx + 1 implies raw_entries_model(entries@)[q] == (m0
                    + enew)[q] by {
                    if q < m0.len() + idx {
                        assert(entries@[q] == prev[q]);
                        assert(raw_entries_model(entries@)[q] == raw_entries_model(prev)[q]);
                        assert(raw_entries_model(prev)[q] == (m0 + Seq::new(
                            idx as nat,
                            |q2: int| (all_sizes[q2], p, f),
                        ))[q]);
                    } else {
                        assert(entries@[q].1@ == p);
                    }
                }
                assert(raw_entries_model(entries@) =~= m0 + enew);
                assert(raw_entries_model(entries@) =~= m0 + Seq::new(
                    (idx + 1) as nat,
                    |q: int| (all_sizes[q], p, f),
                ));
                assert(Seq::new(idx as nat, |q: int| (all_sizes[q], p, f)) + (seq![
                    (all_sizes[idx as int], p, f),
                ] + spec_convert(fmt, all_sizes.subrange(idx as int + 1, all_sizes.len() as int), p, f)->Ok_0)
                    =~= Seq::new((idx + 1) as nat, |q: int| (all_sizes[q], p, f)) + spec_convert(
                    fmt,
                    all_sizes.subrange(idx as int + 1, all_sizes.len() as int),
                    p,
                    f,
                )->Ok_0);
            }
            idx = idx + 1;
        } else {
            proof {
                lemma_converted_prefix_stops(fmt, all_sizes, p, f, idx as int);
            }
            return Err(Error::InvalidDimensions(size));
        }
    }
    proof {
        assert(all_sizes.subrange(idx as int, all_sizes.len() as int) =~= Seq::<u32>::empty());
        assert(Seq::new(idx as nat, |q: int| (all_sizes[q], p, f)) + Seq::<EntryModel>::empty()
            =~= Seq::new(idx as nat, |q: int| (all_sizes[q], p, f)));
        assert(spec_convert(fmt, all_sizes, p, f) == Ok::<Seq<EntryModel>, Error>(
            Seq::new(idx as nat, |q: int| (all_sizes[q], p, f)),
        ));
        assert(raw_entries_model(entries@) == m0 + spec_convert(fmt, all_sizes, p, f)->Ok_0);
    }
    Ok(())
}

/// Parses one entry clause (`--entry <path> <size>... [--resample
/// <filter>]`) and appends its validated entries, as
/// [`spec_entry_clause`] says.  A syntax error leaves the accumulator
/// untouched; an invalid size leaves exactly the entries of the valid
/// sizes before it, never the rejected size or a later one
/// ([`spec_entry_clause_partial`]).
pub fn entry(it: &mut TokenStream, fmt: Cmd, entries: &mut Vec<RawEntry>) -> (r: Result<(), Error>)
    requires
        old(it).wf(),
    ensures
        final(it).wf(),
        final(it).toks() == old(it).toks(),
        match spec_entry_clause(fmt, old(it).toks(), old(it).pos()) {
            Ok((es, j)) => r is Ok && raw_entries_model(final(entries)@) == raw_entries_model(
                old(entries)@,
            ) + es && final(it).pos() == j,
            Err(e) => r matches Err(ae) && ae == e && (match e {
                Error::Syntax(se) => final(entries)@ == old(entries)@,
                Error::InvalidDimensions(sz) => raw_entries_model(final(entries)@)
                    == raw_entries_model(old(entries)@) + spec_entry_clause_partial(
                    fmt,
                    old(it).toks(),
                    old(it).pos(),
                ),
                _ => true,
            }),
        },
{
    it.advance();
    match it.peek() {
        Some((_, Token::Path(path))) => keys(it, fmt, entries, &path),
        Some((c, _)) => Err(Error::Syntax(SyntaxError::UnexpectedToken(c))),
        None => Err(Error::Syntax(SyntaxError::UnexpectedEnd)),
    }
}

/// Consumes the command word, then parses entry clauses while the next
/// token opens one, as [`spec_entries`] says.
pub fn entries(it: &mut TokenStream, fmt: Cmd) -> (r: Result<Vec<RawEntry>, Error>)
    requires
        old(it).wf(),
    ensures
        final(it).wf(),
        final(it).toks() == old(it).toks(),
        ({
            let t = old(it).toks();
            match spec_entries(fmt, t, bump(t, old(it).pos())) {
                Ok((es, j)) => r matches Ok(v) && raw_entries_model(v@) == es && final(it).pos()
                    == j,
                Err(e) => r matches Err(ae) && ae == e,
            }
        }),
{
    let ghost t = old(it).toks();
    it.advance();
    let ghost i0 = it.pos();
    let mut entries_acc: Vec<RawEntry> = Vec::new();
    proof {
        assert(raw_entries_model(entries_acc@) =~= Seq::<EntryModel>::empty());
        if spec_entries(fmt, t, i0) is Ok {
            assert(Seq::<EntryModel>::empty() + spec_entries(fmt, t, i0)->Ok_0.0 =~= spec_entries(
                fmt,
                t,
                i0,
            )->Ok_0.0);
        }
    }
    loop
        invariant
            it.wf(),
            it.toks() == t,
            t == old(it).toks(),
            i0 == bump(t, old(it).pos()),
            0 <= it.pos() <= t.len(),
            spec_entries(fmt, t, i0) == match spec_entries(fmt, t, it.pos()) {
                Ok((rest, k)) => Ok::<(Seq<EntryModel>, int), Error>(
                    (raw_entries_model(entries_acc@) + rest, k),
                ),
                Err(e) => Err(e),
            },
        ensures
            it.wf(),
            it.toks() == t,
            spec_entries(fmt, t, i0) == Ok::<(Seq<EntryModel>, int), Error>(
                (raw_entries_model(entries_acc@), it.pos()),
            ),
        decreases t.len() - it.pos(),
    {
        let next_is_entry = match it.peek() {
            Some((_, Token::Flag(Flag::Entry))) => true,
            _ => false,
        };
        if !next_is_entry {
            proof {
                assert(spec_entries(fmt, t, it.pos()) == Ok::<(Seq<EntryModel>, int), Error>(
                    (Seq::empty(), it.pos()),
                ));
                assert(raw_entries_model(entries_acc@) + Seq::<EntryModel>::empty()
                    =~= raw_entries_model(entries_acc@));
            }
            break ;
        }
        let ghost pos0 = it.pos();
        let ghost m0 = raw_entries_model(entries_acc@);
        match entry(it, fmt, &mut entries_acc) {
            Ok(()) => {
                proof {
                    let (es, j) = spec_entry_clause(fmt, t, pos0)->Ok_0;
                    lemma_entry_clause_range(fmt, t, pos0);
                    if spec_entries(fmt, t, j) is Ok {
                        let (rest, k) = spec_entries(fmt, t, j)->Ok_0;
                        assert(m0 + (es + rest) =~= (m0 + es) + rest);
                    }
                }
            },
            Err(e) => {
                return Err(e);
            },
        }
    }
    Ok(entries_acc)
}

/// Checks that nothing follows the current token and hands back
/// `command`, as [`spec_expect_end`] says.
pub fn expect_end(it: &mut TokenStream, command: Command) -> (r: Result<Command, Error>)
    requires
        old(it).wf(),
    ensures
        final(it).wf(),
        final(it).toks() == old(it).toks(),
        match spec_expect_end(old(it).toks(), old(it).pos()) {
            Ok(u) => r matches Ok(c) && c == command,
            Err(e) => r matches Err(ae) && ae == e,
        },
{
    it.advance();
    match it.peek() {
        Some((c, _)) => Err(Error::Syntax(SyntaxError::UnexpectedToken(c))),
        None => Ok(command),
    }
}

/// Parses an output clause from its `Output` flag: a path must follow
/// and the input must end there, as [`spec_output_clause`] says.
pub fn output(it: &mut TokenStream) -> (r: Result<Output, Error>)
    requires
        old(it).wf(),
    ensures
        final(it).wf(),
        final(it).toks() == old(it).toks(),
        match spec_output_clause(old(it).toks(), old(it).pos()) {
            Ok((out, k)) => r matches Ok(o) && o@ == out && final(it).pos() == k,
            Err(e) => r matches Err(ae) && ae == e,
        },
{
    it.advance();
    match it.peek() {
        Some((_, Token::Path(path))) => {
            it.advance();
            match it.peek() {
                Some((c, _)) => Err(Error::Syntax(SyntaxError::UnexpectedToken(c))),
                None => Ok(Output::Path(path)),
            }
        },
        Some((c, _)) => Err(Error::Syntax(SyntaxError::UnexpectedToken(c))),
        None => Err(Error::Syntax(SyntaxError::UnexpectedEnd)),
    }
}

} // verus!
