//! Canonical argument form of a command, and the round-trip law: parsing
//! the canonical form of a well-formed command yields that command back.
//!
//! The rendering is ghost: it is the reference serialization that the
//! round-trip theorem speaks about.  One entry clause is written per
//! entry, with its filter spelled out, so re-parsing rebuilds the entry
//! list element by element.

use vstd::prelude::*;

use crate::command::{CommandModel, FaviconConfig};
use crate::error::Error;
use crate::keys::size_valid;
use crate::parse::combinators::{
    lemma_entries_paths, lemma_entries_position, lemma_entries_valid, lemma_output_tail_paths,
    size_run, spec_convert, spec_entries, spec_entry_clause, spec_expect_end, spec_filter,
    spec_keys, spec_output_clause, spec_output_tail, tokens_path_like,
};
use crate::parse::favicon::{lemma_fav_opts_position, spec_fav_opts, spec_favicon};
use crate::parse::icns::spec_icns;
use crate::parse::token::{
    all_digits, digit_val, digits_value, is_digit, is_numeral, lemma_keyword_facts, numeral_value,
    path_like, strip_sign, token_of, Cmd, Flag, TokenModel,
};
use crate::parse::{bump, spec_args, spec_ico, spec_parse};
use crate::{EntryModel, OutputModel, ResamplingFilter};

verus! {

/// The character of one decimal digit.
pub open spec fn digit_char(d: int) -> char {
    if d == 0 {
        '0'
    } else if d == 1 {
        '1'
    } else if d == 2 {
        '2'
    } else if d == 3 {
        '3'
    } else if d == 4 {
        '4'
    } else if d == 5 {
        '5'
    } else if d == 6 {
        '6'
    } else if d == 7 {
        '7'
    } else if d == 8 {
        '8'
    } else {
        '9'
    }
}

/// The decimal numeral of `n`, most significant digit first.
pub open spec fn decimal_digits(n: int) -> Seq<char>
    decreases n,
{
    if n < 10 {
        seq![digit_char(n)]
    } else {
        decimal_digits(n / 10) + seq![digit_char(n % 10)]
    }
}

/// The canonical spelling of one token.
pub open spec fn token_word(tm: TokenModel) -> Seq<char> {
    match tm {
        TokenModel::Command(Cmd::Ico) => "ico"@,
        TokenModel::Command(Cmd::Icns) => "icns"@,
        TokenModel::Command(Cmd::Favicon) => "favicon"@,
        TokenModel::Flag(Flag::Entry) => "-e"@,
        TokenModel::Flag(Flag::Resample) => "-r"@,
        TokenModel::Flag(Flag::Help) => "-h"@,
        TokenModel::Flag(Flag::Version) => "-v"@,
        TokenModel::Flag(Flag::Output) => "-o"@,
        TokenModel::Flag(Flag::AppleTouch) => "--apple-touch"@,
        TokenModel::Flag(Flag::WebApp) => "--web-app"@,
        TokenModel::Filter(ResamplingFilter::Nearest) => "nearest"@,
        TokenModel::Filter(ResamplingFilter::Linear) => "linear"@,
        TokenModel::Filter(ResamplingFilter::Cubic) => "cubic"@,
        TokenModel::Size(s) => decimal_digits(s as int),
        TokenModel::Path(p) => p,
    }
}

/// A token whose canonical spelling classifies back to it.  Keyword and
/// size tokens always do; a path token does exactly when its string is
/// path-like.
pub open spec fn renderable(tm: TokenModel) -> bool {
    tm matches TokenModel::Path(p) ==> path_like(p)
}

/// The canonical token run of one entry: its own entry clause, filter
/// spelled out.
pub open spec fn render_entry(e: EntryModel) -> Seq<TokenModel> {
    seq![
        TokenModel::Flag(Flag::Entry),
        TokenModel::Path(e.1),
        TokenModel::Size(e.0),
        TokenModel::Flag(Flag::Resample),
        TokenModel::Filter(e.2),
    ]
}

/// The canonical token run of an entry list, in encounter order.
pub open spec fn render_entries(es: Seq<EntryModel>) -> Seq<TokenModel>
    decreases es.len(),
{
    if es.len() == 0 {
        Seq::empty()
    } else {
        render_entry(es[0]) + render_entries(es.subrange(1, es.len() as int))
    }
}

/// The canonical token run of the favicon options.
pub open spec fn render_opts(config: FaviconConfig) -> Seq<TokenModel> {
    (if config.apple_touch {
        seq![TokenModel::Flag(Flag::AppleTouch)]
    } else {
        Seq::empty()
    }) + (if config.web_app {
        seq![TokenModel::Flag(Flag::WebApp)]
    } else {
        Seq::empty()
    })
}

/// The canonical token run of the output tail.
pub open spec fn render_output(out: OutputModel) -> Seq<TokenModel> {
    match out {
        OutputModel::Stdout => Seq::empty(),
        OutputModel::Path(p) => seq![TokenModel::Flag(Flag::Output), TokenModel::Path(p)],
    }
}

/// The canonical token run of a whole command.
pub open spec fn render_command(cm: CommandModel) -> Seq<TokenModel> {
    match cm {
        CommandModel::Help => seq![TokenModel::Flag(Flag::Help)],
        CommandModel::Version => seq![TokenModel::Flag(Flag::Version)],
        CommandModel::Ico(es, out) => seq![TokenModel::Command(Cmd::Ico)] + render_entries(es)
            + render_output(out),
        CommandModel::Icns(es, out) => seq![TokenModel::Command(Cmd::Icns)] + render_entries(es)
            + render_output(out),
        CommandModel::Favicon(es, config, out) => seq![TokenModel::Command(Cmd::Favicon)]
            + render_entries(es) + render_opts(config) + render_output(out),
    }
}

/// The canonical argument strings of a whole command.
pub open spec fn render_args(cm: CommandModel) -> Seq<Seq<char>> {
    render_command(cm).map_values(|tm: TokenModel| token_word(tm))
}

/// Entries whose sizes the format supports and whose paths the grammar
/// can express.
pub open spec fn wf_entries(fmt: Cmd, es: Seq<EntryModel>) -> bool {
    forall|q: int|
        0 <= q < es.len() ==> size_valid(fmt, (#[trigger] es[q]).0) && path_like(es[q].1)
}

/// An output whose path, if any, the grammar can express.
pub open spec fn wf_output(out: OutputModel) -> bool {
    out matches OutputModel::Path(p) ==> path_like(p)
}

/// A command the grammar can express: every size has a key in its
/// format, and every path string classifies as a path token.
pub open spec fn wf_command(cm: CommandModel) -> bool {
    match cm {
        CommandModel::Help => true,
        CommandModel::Version => true,
        CommandModel::Ico(es, out) => wf_entries(Cmd::Ico, es) && wf_output(out),
        CommandModel::Icns(es, out) => wf_entries(Cmd::Icns, es) && wf_output(out),
        CommandModel::Favicon(es, config, out) => wf_entries(Cmd::Favicon, es) && wf_output(out),
    }
}

/// A decimal numeral is nonempty, all digits, starts with a digit, and
/// evaluates back to its number.
proof fn lemma_decimal_props(n: int)
    requires
        0 <= n,
    ensures
        decimal_digits(n).len() >= 1,
        all_digits(decimal_digits(n)),
        is_digit(decimal_digits(n)[0]),
        digits_value(decimal_digits(n)) == n,
    decreases n,
{
    if n < 10 {
        let w = seq![digit_char(n)];
        assert(digits_value(Seq::<char>::empty()) == 0);
        assert(w.drop_last() =~= Seq::<char>::empty());
        assert(w.last() == digit_char(n));
        assert(digits_value(w) == digits_value(w.drop_last()) * 10 + digit_val(w.last()));
        assert(is_digit(digit_char(n)) && digit_val(digit_char(n)) == n);
        assert forall|q: int| 0 <= q < w.len() implies is_digit(#[trigger] w[q]) by {
            assert(w[q] == digit_char(n));
        }
    } else {
        lemma_decimal_props(n / 10);
        let a = decimal_digits(n / 10);
        let c = digit_char(n % 10);
        let w = a + seq![c];
        assert(w.drop_last() =~= a);
        assert(w.last() == c);
        assert(digits_value(w) == digits_value(a) * 10 + digit_val(c));
        assert(digit_val(c) == n % 10);
        assert(digits_value(a) * 10 + n % 10 == n);
        assert forall|q: int| 0 <= q < w.len() implies is_digit(#[trigger] w[q]) by {
            if q < a.len() {
                assert(w[q] == a[q]);
            } else {
                assert(w[q] == c);
            }
        }
        assert(w[0] == a[0]);
    }
}

/// The canonical numeral of a size classifies back to that size.
proof fn lemma_size_word(s: u32)
    ensures
        token_of(decimal_digits(s as int)) == TokenModel::Size(s),
{
    lemma_decimal_props(s as int);
    lemma_keyword_facts();
    let w = decimal_digits(s as int);
    assert(strip_sign(w) == w);
    assert(is_numeral(w));
    assert(numeral_value(w) == s);
}

/// The canonical spelling of a renderable token classifies back to it.
proof fn lemma_token_word(tm: TokenModel)
    requires
        renderable(tm),
    ensures
        token_of(token_word(tm)) == tm,
{
    lemma_keyword_facts();
    match tm {
        TokenModel::Size(s) => lemma_size_word(s),
        _ => (),
    }
}

/// Five tokens per rendered entry.
proof fn lemma_render_entries_len(es: Seq<EntryModel>)
    ensures
        render_entries(es).len() == 5 * es.len(),
    decreases es.len(),
{
    if es.len() > 0 {
        lemma_render_entries_len(es.subrange(1, es.len() as int));
    }
}

/// Parsing a rendered entry run, stopped by the token after it, yields
/// exactly those entries.
proof fn lemma_parse_rendered_entries(fmt: Cmd, t: Seq<TokenModel>, i: int, es: Seq<EntryModel>)
    requires
        forall|q: int| 0 <= q < es.len() ==> size_valid(fmt, (#[trigger] es[q]).0),
        0 <= i,
        i + render_entries(es).len() <= t.len(),
        t.subrange(i, i + render_entries(es).len() as int) == render_entries(es),
        i + render_entries(es).len() == t.len() || !(t[i + render_entries(es).len()] matches
            TokenModel::Flag(Flag::Entry)),
    ensures
        spec_entries(fmt, t, i) == Ok::<(Seq<EntryModel>, int), Error>(
            (es, i + render_entries(es).len()),
        ),
    decreases es.len(),
{
    lemma_render_entries_len(es);
    let rl = render_entries(es).len() as int;
    let r0 = t.subrange(i, i + rl);
    if es.len() == 0 {
        assert(es =~= Seq::<EntryModel>::empty());
        assert(spec_entries(fmt, t, i) == Ok::<(Seq<EntryModel>, int), Error>((es, i)));
    } else {
        let e0 = es[0];
        let rest = es.subrange(1, es.len() as int);
        assert(render_entries(es) == render_entry(e0) + render_entries(rest));
        assert(t[i] == r0[0] && t[i + 1] == r0[1] && t[i + 2] == r0[2] && t[i + 3] == r0[3] && t[i
            + 4] == r0[4]);
        assert(t[i] == TokenModel::Flag(Flag::Entry));
        assert(t[i + 1] == TokenModel::Path(e0.1));
        assert(t[i + 2] == TokenModel::Size(e0.0));
        assert(t[i + 3] == TokenModel::Flag(Flag::Resample));
        assert(t[i + 4] == TokenModel::Filter(e0.2));
        // the one-size run ends at the resample flag
        assert(size_run(t, i + 3) == (Seq::<u32>::empty(), i + 3));
        assert(size_run(t, i + 2).0 =~= seq![e0.0]);
        assert(size_run(t, i + 2).1 == i + 3);
        assert(spec_filter(t, i + 3) == Ok::<(ResamplingFilter, int), Error>((e0.2, i + 5)));
        // converting the single valid size gives the entry back
        assert(seq![e0.0].subrange(1, 1) =~= Seq::<u32>::empty());
        assert(spec_convert(fmt, Seq::<u32>::empty(), e0.1, e0.2) == Ok::<
            Seq<EntryModel>,
            Error,
        >(Seq::<EntryModel>::empty()));
        assert(seq![(e0.0, e0.1, e0.2)] + Seq::<EntryModel>::empty() =~= seq![e0]);
        assert(spec_convert(fmt, seq![e0.0], e0.1, e0.2) == Ok::<Seq<EntryModel>, Error>(
            seq![e0],
        ));
        assert(spec_keys(fmt, t, i + 1, e0.1) == Ok::<(Seq<EntryModel>, int), Error>(
            (seq![e0], i + 5),
        ));
        assert(spec_entry_clause(fmt, t, i) == Ok::<(Seq<EntryModel>, int), Error>(
            (seq![e0], i + 5),
        ));
        // the rest of the run renders just after the clause
        lemma_render_entries_len(rest);
        assert forall|q: int|
            0 <= q < rl - 5 implies t.subrange(i + 5, i + rl)[q] == render_entries(rest)[q] by {
            assert(t.subrange(i + 5, i + rl)[q] == t[i + 5 + q]);
            assert(r0[5 + q] == t[i + 5 + q]);
            assert(render_entries(es)[5 + q] == render_entries(rest)[q]);
        }
        assert(t.subrange(i + 5, i + rl) =~= render_entries(rest));
        assert forall|q: int|
            0 <= q < rest.len() implies size_valid(fmt, (#[trigger] rest[q]).0) by {
            assert(rest[q] == es[q + 1]);
        }
        lemma_parse_rendered_entries(fmt, t, i + 5, rest);
        assert(seq![e0] + rest =~= es);
        assert(spec_entries(fmt, t, i) == Ok::<(Seq<EntryModel>, int), Error>((es, i + rl)));
    }
}

/// Parsing rendered favicon options from a clean slate recovers the
/// configuration, provided the next token is not another option flag.
proof fn lemma_parse_rendered_opts(t: Seq<TokenModel>, i: int, config: FaviconConfig)
    requires
        0 <= i,
        i + render_opts(config).len() <= t.len(),
        t.subrange(i, i + render_opts(config).len() as int) == render_opts(config),
        ({
            let end = i + render_opts(config).len();
            end == t.len() || (!(t[end] matches TokenModel::Flag(Flag::AppleTouch)) && !(t[end]
                matches TokenModel::Flag(Flag::WebApp)))
        }),
    ensures
        spec_fav_opts(t, i, false, false) == Ok::<(bool, bool, int), Error>(
            (config.apple_touch, config.web_app, i + render_opts(config).len()),
        ),
{
    let ol = render_opts(config).len() as int;
    let r0 = t.subrange(i, i + ol);
    if config.apple_touch {
        assert(t[i] == r0[0]);
        assert(t[i] == TokenModel::Flag(Flag::AppleTouch));
        if config.web_app {
            assert(t[i + 1] == r0[1]);
            assert(t[i + 1] == TokenModel::Flag(Flag::WebApp));
            assert(spec_fav_opts(t, i + 2, true, true) == Ok::<(bool, bool, int), Error>(
                (true, true, i + 2),
            ));
            assert(spec_fav_opts(t, i + 1, true, false) == Ok::<(bool, bool, int), Error>(
                (true, true, i + 2),
            ));
        } else {
            assert(spec_fav_opts(t, i + 1, true, false) == Ok::<(bool, bool, int), Error>(
                (true, false, i + 1),
            ));
        }
    } else {
        if config.web_app {
            assert(t[i] == r0[0]);
            assert(t[i] == TokenModel::Flag(Flag::WebApp));
            assert(spec_fav_opts(t, i + 1, false, true) == Ok::<(bool, bool, int), Error>(
                (false, true, i + 1),
            ));
        }
    }
}

/// Parsing a rendered output tail, standing at the end of the input,
/// recovers the output.
proof fn lemma_parse_rendered_output(t: Seq<TokenModel>, i: int, out: OutputModel)
    requires
        0 <= i <= t.len(),
        t.len() - i == render_output(out).len(),
        t.subrange(i, t.len() as int) == render_output(out),
    ensures
        spec_output_tail(t, i) == Ok::<(OutputModel, int), Error>((out, t.len() as int)),
{
    match out {
        OutputModel::Stdout => {
            assert(i == t.len());
        },
        OutputModel::Path(p) => {
            assert(t.subrange(i, t.len() as int)[0] == t[i]);
            assert(t.subrange(i, t.len() as int)[1] == t[i + 1]);
            assert(t[i] == TokenModel::Flag(Flag::Output));
            assert(t[i + 1] == TokenModel::Path(p));
            assert(spec_output_clause(t, i) == Ok::<(OutputModel, int), Error>(
                (OutputModel::Path(p), i + 2),
            ));
        },
    }
}

/// Parsing the rendered token run of a well-formed command yields that
/// command.
proof fn lemma_parse_rendered_command(cm: CommandModel)
    requires
        wf_command(cm),
    ensures
        spec_parse(render_command(cm)) == Ok::<CommandModel, Error>(cm),
{
    let t = render_command(cm);
    match cm {
        CommandModel::Help => {
            assert(t.len() == 1);
            assert(spec_expect_end(t, 0) == Ok::<(), Error>(()));
        },
        CommandModel::Version => {
            assert(t.len() == 1);
            assert(spec_expect_end(t, 0) == Ok::<(), Error>(()));
        },
        CommandModel::Ico(es, out) => {
            lemma_parse_rendered_format(Cmd::Ico, es, out, t);
            assert(spec_ico(t, 0) == Ok::<CommandModel, Error>(cm));
        },
        CommandModel::Icns(es, out) => {
            lemma_parse_rendered_format(Cmd::Icns, es, out, t);
            assert(spec_icns(t, 0) == Ok::<CommandModel, Error>(cm));
        },
        CommandModel::Favicon(es, config, out) => {
            lemma_parse_rendered_favicon(es, config, out, t);
        },
    }
}

/// Shared step for the ico and icns forms: entries, then the output
/// tail.
proof fn lemma_parse_rendered_format(
    fmt: Cmd,
    es: Seq<EntryModel>,
    out: OutputModel,
    t: Seq<TokenModel>,
)
    requires
        fmt == Cmd::Ico || fmt == Cmd::Icns,
        wf_entries(fmt, es),
        wf_output(out),
        ({
            let cw = if fmt == Cmd::Ico {
                TokenModel::Command(Cmd::Ico)
            } else {
                TokenModel::Command(Cmd::Icns)
            };
            t == seq![cw] + render_entries(es) + render_output(out)
        }),
    ensures
        spec_entries(fmt, t, bump(t, 0)) == Ok::<(Seq<EntryModel>, int), Error>(
            (es, 1 + render_entries(es).len() as int),
        ),
        spec_output_tail(t, 1 + render_entries(es).len() as int) == Ok::<
            (OutputModel, int),
            Error,
        >((out, t.len() as int)),
{
    lemma_render_entries_len(es);
    let el = render_entries(es).len() as int;
    assert(t.len() == 1 + el + render_output(out).len());
    assert forall|q: int|
        0 <= q < el implies t.subrange(1, 1 + el)[q] == render_entries(es)[q] by {
        assert(t.subrange(1, 1 + el)[q] == t[1 + q]);
        assert(t[1 + q] == render_entries(es)[q]);
    }
    assert(t.subrange(1, 1 + el) =~= render_entries(es));
    if render_output(out).len() > 0 {
        assert(t[1 + el] == render_output(out)[0]);
        assert(!(t[1 + el] matches TokenModel::Flag(Flag::Entry)));
    }
    lemma_parse_rendered_entries(fmt, t, 1, es);
    assert(bump(t, 0) == 1);
    assert forall|q: int|
        0 <= q < render_output(out).len() implies t.subrange(1 + el, t.len() as int)[q]
            == render_output(out)[q] by {
        assert(t.subrange(1 + el, t.len() as int)[q] == t[1 + el + q]);
        assert(t[1 + el + q] == render_output(out)[q]);
    }
    assert(t.subrange(1 + el, t.len() as int) =~= render_output(out));
    lemma_parse_rendered_output(t, 1 + el, out);
}

/// The favicon form: entries, options, then the output tail.
proof fn lemma_parse_rendered_favicon(
    es: Seq<EntryModel>,
    config: FaviconConfig,
    out: OutputModel,
    t: Seq<TokenModel>,
)
    requires
        wf_entries(Cmd::Favicon, es),
        wf_output(out),
        t == seq![TokenModel::Command(Cmd::Favicon)] + render_entries(es) + render_opts(config)
            + render_output(out),
    ensures
        spec_favicon(t, 0) == Ok::<CommandModel, Error>(
            CommandModel::Favicon(es, config, out),
        ),
{
    lemma_render_entries_len(es);
    let el = render_entries(es).len() as int;
    let ol = render_opts(config).len() as int;
    assert(t.len() == 1 + el + ol + render_output(out).len());
    assert forall|q: int|
        0 <= q < el implies t.subrange(1, 1 + el)[q] == render_entries(es)[q] by {
        assert(t.subrange(1, 1 + el)[q] == t[1 + q]);
        assert(t[1 + q] == render_entries(es)[q]);
    }
    assert(t.subrange(1, 1 + el) =~= render_entries(es));
    if ol > 0 {
        assert(t[1 + el] == render_opts(config)[0]);
        assert(!(t[1 + el] matches TokenModel::Flag(Flag::Entry)));
    } else if render_output(out).len() > 0 {
        assert(t[1 + el] == render_output(out)[0]);
        assert(!(t[1 + el] matches TokenModel::Flag(Flag::Entry)));
    }
    lemma_parse_rendered_entries(Cmd::Favicon, t, 1, es);
    assert(bump(t, 0) == 1);
    assert forall|q: int|
        0 <= q < ol implies t.subrange(1 + el, 1 + el + ol)[q] == render_opts(config)[q] by {
        assert(t.subrange(1 + el, 1 + el + ol)[q] == t[1 + el + q]);
        assert(t[1 + el + q] == render_opts(config)[q]);
    }
    assert(t.subrange(1 + el, 1 + el + ol) =~= render_opts(config));
    if render_output(out).len() > 0 {
        assert(t[1 + el + ol] == render_output(out)[0]);
    }
    lemma_parse_rendered_opts(t, 1 + el, config);
    assert forall|q: int|
        0 <= q < render_output(out).len() implies t.subrange(1 + el + ol, t.len() as int)[q]
            == render_output(out)[q] by {
        assert(t.subrange(1 + el + ol, t.len() as int)[q] == t[1 + el + ol + q]);
        assert(t[1 + el + ol + q] == render_output(out)[q]);
    }
    assert(t.subrange(1 + el + ol, t.len() as int) =~= render_output(out));
    lemma_parse_rendered_output(t, 1 + el + ol, out);
    assert((FaviconConfig { apple_touch: config.apple_touch, web_app: config.web_app })
        == config);
}

/// Every token a well-formed entry list renders is renderable.
proof fn lemma_render_entries_renderable(es: Seq<EntryModel>)
    requires
        forall|q: int| 0 <= q < es.len() ==> path_like((#[trigger] es[q]).1),
    ensures
        forall|q: int|
            0 <= q < render_entries(es).len() ==> renderable(#[trigger] render_entries(es)[q]),
    decreases es.len(),
{
    if es.len() > 0 {
        let rest = es.subrange(1, es.len() as int);
        assert forall|q: int|
            0 <= q < rest.len() implies path_like((#[trigger] rest[q]).1) by {
            assert(rest[q] == es[q + 1]);
        }
        lemma_render_entries_renderable(rest);
        assert forall|q: int|
            0 <= q < render_entries(es).len() implies renderable(
                #[trigger] render_entries(es)[q],
            ) by {
            if q < 5 {
                assert(render_entries(es)[q] == render_entry(es[0])[q]);
            } else {
                assert(render_entries(es)[q] == render_entries(rest)[q - 5]);
            }
        }
    }
}

/// Every token a well-formed command renders is renderable.
proof fn lemma_render_command_renderable(cm: CommandModel)
    requires
        wf_command(cm),
    ensures
        forall|q: int|
            0 <= q < render_command(cm).len() ==> renderable(#[trigger] render_command(cm)[q]),
{
    let t = render_command(cm);
    match cm {
        CommandModel::Help => {
        },
        CommandModel::Version => {
        },
        CommandModel::Ico(es, out) => {
            lemma_render_entries_renderable(es);
            let el = render_entries(es).len() as int;
            assert forall|q: int| 0 <= q < t.len() implies renderable(#[trigger] t[q]) by {
                if 1 <= q < 1 + el {
                    assert(t[q] == render_entries(es)[q - 1]);
                } else if q >= 1 + el {
                    assert(t[q] == render_output(out)[q - 1 - el]);
                }
            }
        },
        CommandModel::Icns(es, out) => {
            lemma_render_entries_renderable(es);
            let el = render_entries(es).len() as int;
            assert forall|q: int| 0 <= q < t.len() implies renderable(#[trigger] t[q]) by {
                if 1 <= q < 1 + el {
                    assert(t[q] == render_entries(es)[q - 1]);
                } else if q >= 1 + el {
                    assert(t[q] == render_output(out)[q - 1 - el]);
                }
            }
        },
        CommandModel::Favicon(es, config, out) => {
            lemma_render_entries_renderable(es);
            let el = render_entries(es).len() as int;
            let ol = render_opts(config).len() as int;
            assert forall|q: int| 0 <= q < t.len() implies renderable(#[trigger] t[q]) by {
                if 1 <= q < 1 + el {
                    assert(t[q] == render_entries(es)[q - 1]);
                } else if 1 + el <= q < 1 + el + ol {
                    assert(t[q] == render_opts(config)[q - 1 - el]);
                } else if q >= 1 + el + ol {
                    assert(t[q] == render_output(out)[q - 1 - el - ol]);
                }
            }
        },
    }
}

/// The round-trip law: re-serializing any well-formed command to its
/// canonical argument form and parsing that form again yields an equal
/// command.
pub proof fn lemma_round_trip(cm: CommandModel)
    requires
        wf_command(cm),
    ensures
        spec_args(render_args(cm)) == Ok::<CommandModel, Error>(cm),
{
    let t = render_command(cm);
    let a = render_args(cm);
    lemma_render_command_renderable(cm);
    assert(t.len() >= 1) by {
        match cm {
            CommandModel::Help => {
            },
            CommandModel::Version => {
            },
            CommandModel::Ico(es, out) => {
            },
            CommandModel::Icns(es, out) => {
            },
            CommandModel::Favicon(es, config, out) => {
            },
        }
    }
    assert forall|q: int| 0 <= q < a.len() implies token_of(a[q]) == t[q] by {
        assert(a[q] == token_word(t[q]));
        lemma_token_word(t[q]);
    }
    assert(a.map_values(|s: Seq<char>| token_of(s)) =~= t);
    lemma_parse_rendered_command(cm);
}

/// Tokenizing leaves only path-like path tokens: the tokenizer yields a
/// path token exactly for the strings that stand for themselves.
proof fn lemma_tokenized_path_like(argv: Seq<Seq<char>>)
    ensures
        tokens_path_like(argv.map_values(|s: Seq<char>| token_of(s))),
{
    let t = argv.map_values(|s: Seq<char>| token_of(s));
    assert forall|q: int|
        0 <= q < t.len() implies ((#[trigger] t[q]) matches TokenModel::Path(p) ==> path_like(
        p,
    )) by {
        assert(t[q] == token_of(argv[q]));
    }
}

/// Whatever the parser accepts is well-formed: every size has a key in
/// its format and every path string classifies as a path token.
pub proof fn lemma_parsed_wf(argv: Seq<Seq<char>>)
    requires
        spec_args(argv) is Ok,
    ensures
        wf_command(spec_args(argv)->Ok_0),
{
    if argv.len() > 0 {
        let t = argv.map_values(|s: Seq<char>| token_of(s));
        lemma_tokenized_path_like(argv);
        let i0 = bump(t, 0);
        match t[0] {
            TokenModel::Command(fmt) => {
                match spec_entries(fmt, t, i0) {
                    Ok((es, j)) => {
                        lemma_entries_valid(fmt, t, i0);
                        lemma_entries_paths(fmt, t, i0);
                        lemma_entries_position(fmt, t, i0);
                        assert forall|q: int|
                            0 <= q < es.len() implies size_valid(fmt, (#[trigger] es[q]).0)
                            && path_like(es[q].1) by {
                            assert(size_valid(fmt, es[q].0));
                            assert(path_like(es[q].1));
                        }
                        match fmt {
                            Cmd::Ico => {
                                if spec_output_tail(t, j) is Ok {
                                    lemma_output_tail_paths(t, j);
                                }
                            },
                            Cmd::Icns => {
                                if spec_output_tail(t, j) is Ok {
                                    lemma_output_tail_paths(t, j);
                                }
                            },
                            Cmd::Favicon => {
                                lemma_fav_opts_position(t, j, false, false);
                                match spec_fav_opts(t, j, false, false) {
                                    Ok((a, w, k)) => {
                                        if spec_output_tail(t, k) is Ok {
                                            lemma_output_tail_paths(t, k);
                                        }
                                    },
                                    Err(e) => {
                                    },
                                }
                            },
                        }
                    },
                    Err(e) => {
                    },
                }
            },
            _ => {
            },
        }
    }
}

/// Parsed commands round-trip: whatever the parser accepts, rendered to
/// its canonical argument form and parsed again, comes back unchanged.
pub proof fn lemma_parse_round_trip(argv: Seq<Seq<char>>)
    requires
        spec_args(argv) is Ok,
    ensures
        spec_args(render_args(spec_args(argv)->Ok_0)) == spec_args(argv),
{
    lemma_parsed_wf(argv);
    lemma_round_trip(spec_args(argv)->Ok_0);
}

} // verus!
