//! The favicon command grammar: entry clauses, the two favicon option
//! flags (each at most once, in any order), then the output tail.

use vstd::prelude::*;

use crate::command::{favicon_entries_model, Command, CommandModel, FaviconConfig};
use crate::error::{position_within, Error, SyntaxError};
use crate::keys::{size_valid, FaviconKey};
use crate::parse::combinators::{
    entries, lemma_entries_position, lemma_entries_valid, lemma_output_tail_position, output,
    raw_entries_model, spec_entries, spec_output_tail, RawEntry,
};
use crate::parse::token::{Cmd, Flag, Token, TokenModel};
use crate::parse::{bump, TokenStream};
use crate::{Entries, Output};

verus! {

/// The favicon option flags from `i` on: `AppleTouch` and `WebApp` may
/// each appear at most once, in any order; a repetition is unexpected at
/// its own position, and any other token ends the options.
pub open spec fn spec_fav_opts(t: Seq<TokenModel>, i: int, apple: bool, web: bool) -> Result<
    (bool, bool, int),
    Error,
>
    decreases t.len() - i,
{
    if i < t.len() {
        match t[i] {
            TokenModel::Flag(Flag::AppleTouch) => {
                if apple {
                    Err(Error::Syntax(SyntaxError::UnexpectedToken(i as usize)))
                } else {
                    spec_fav_opts(t, i + 1, true, web)
                }
            },
            TokenModel::Flag(Flag::WebApp) => {
                if web {
                    Err(Error::Syntax(SyntaxError::UnexpectedToken(i as usize)))
                } else {
                    spec_fav_opts(t, i + 1, apple, true)
                }
            },
            _ => Ok((apple, web, i)),
        }
    } else {
        Ok((apple, web, i))
    }
}

/// The favicon grammar from its command word at `i`: entry clauses, the
/// option flags, then the output tail.
pub open spec fn spec_favicon(t: Seq<TokenModel>, i: int) -> Result<CommandModel, Error> {
    match spec_entries(Cmd::Favicon, t, bump(t, i)) {
        Ok((es, j)) => match spec_fav_opts(t, j, false, false) {
            Ok((apple, web, k)) => match spec_output_tail(t, k) {
                Ok((out, end)) => Ok(
                    CommandModel::Favicon(
                        es,
                        (FaviconConfig { apple_touch: apple, web_app: web }),
                        out,
                    ),
                ),
                Err(e) => Err(e),
            },
            Err(e) => Err(e),
        },
        Err(e) => Err(e),
    }
}

/// The option flags only report positions inside the token list, and on
/// success land where the options stopped.
pub proof fn lemma_fav_opts_position(t: Seq<TokenModel>, i: int, apple: bool, web: bool)
    requires
        0 <= i <= t.len(),
    ensures
        position_within(spec_fav_opts(t, i, apple, web), t.len() as int),
        spec_fav_opts(t, i, apple, web) matches Ok((a, w, k)) ==> i <= k <= t.len(),
    decreases t.len() - i,
{
    if i < t.len() {
        match t[i] {
            TokenModel::Flag(Flag::AppleTouch) => {
                if !apple {
                    lemma_fav_opts_position(t, i + 1, true, web);
                }
            },
            TokenModel::Flag(Flag::WebApp) => {
                if !web {
                    lemma_fav_opts_position(t, i + 1, apple, true);
                }
            },
            _ => {
            },
        }
    }
}

/// The whole favicon grammar only reports positions inside the token
/// list.
pub proof fn lemma_favicon_position(t: Seq<TokenModel>, i: int)
    requires
        0 <= i <= t.len(),
    ensures
        position_within(spec_favicon(t, i), t.len() as int),
{
    lemma_entries_position(Cmd::Favicon, t, bump(t, i));
    match spec_entries(Cmd::Favicon, t, bump(t, i)) {
        Ok((es, j)) => {
            lemma_fav_opts_position(t, j, false, false);
            match spec_fav_opts(t, j, false, false) {
                Ok((a, w, k)) => {
                    lemma_output_tail_position(t, k);
                },
                Err(e) => {
                },
            }
        },
        Err(e) => {
        },
    }
}

/// Builds the typed entries from raw entries, all of whose sizes have a
/// favicon key.
fn keyed_entries(raw: &Vec<RawEntry>) -> (r: Entries<FaviconKey>)
    requires
        forall|q: int| 0 <= q < raw@.len() ==> size_valid(Cmd::Favicon, (#[trigger] raw@[q]).0),
    ensures
        favicon_entries_model(r@) == raw_entries_model(raw@),
{
    let mut out: Entries<FaviconKey> = Vec::new();
    let mut i: usize = 0;
    while i < raw.len()
        invariant
            0 <= i <= raw@.len(),
            out@.len() == i,
            forall|q: int|
                0 <= q < raw@.len() ==> size_valid(Cmd::Favicon, (#[trigger] raw@[q]).0),
            forall|q: int|
                0 <= q < i ==> {
                    &&& (#[trigger] out@[q]).0.as_size() == raw@[q].0
                    &&& out@[q].1 == raw@[q].1
                    &&& out@[q].2 == raw@[q].2
                },
        decreases raw@.len() - i,
    {
        let key = FaviconKey::from_size(raw[i].0).unwrap();
        out.push((key, raw[i].1.clone(), raw[i].2));
        i = i + 1;
    }
    proof {
        assert(favicon_entries_model(out@) =~= raw_entries_model(raw@));
    }
    out
}

/// Parses the favicon command from its command word, as [`spec_favicon`]
/// says.
pub fn parse(it: &mut TokenStream) -> (r: Result<Command, Error>)
    requires
        old(it).wf(),
    ensures
        final(it).wf(),
        final(it).toks() == old(it).toks(),
        match spec_favicon(old(it).toks(), old(it).pos()) {
            Ok(cm) => r matches Ok(c) && c@ == cm,
            Err(e) => r matches Err(ae) && ae == e,
        },
{
    let ghost t = old(it).toks();
    let ghost i0 = bump(t, old(it).pos());
    let mut web_app = false;
    let mut apple_touch = false;
    let raw = match entries(it, Cmd::Favicon) {
        Ok(v) => v,
        Err(e) => {
            return Err(e);
        },
    };
    proof {
        lemma_entries_valid(Cmd::Favicon, t, i0);
        let es = spec_entries(Cmd::Favicon, t, i0)->Ok_0.0;
        assert forall|q: int|
            0 <= q < raw@.len() implies size_valid(Cmd::Favicon, (#[trigger] raw@[q]).0) by {
            assert(raw_entries_model(raw@)[q] == es[q]);
            assert(raw_entries_model(raw@)[q].0 == raw@[q].0);
        }
    }
    let ghost j0 = it.pos();
    loop
        invariant
            it.wf(),
            it.toks() == t,
            t == old(it).toks(),
            i0 == bump(t, old(it).pos()),
            0 <= it.pos() <= t.len(),
            spec_entries(Cmd::Favicon, t, i0) == Ok::<(Seq<crate::EntryModel>, int), Error>(
                (raw_entries_model(raw@), j0),
            ),
            spec_fav_opts(t, j0, false, false) == spec_fav_opts(
                t,
                it.pos(),
                apple_touch,
                web_app,
            ),
        ensures
            it.wf(),
            it.toks() == t,
            spec_fav_opts(t, j0, false, false) == Ok::<(bool, bool, int), Error>(
                (apple_touch, web_app, it.pos()),
            ),
        decreases t.len() - it.pos(),
    {
        match it.peek() {
            Some((c, Token::Flag(Flag::AppleTouch))) => {
                if !apple_touch {
                    apple_touch = true;
                    it.advance();
                } else {
                    return Err(Error::Syntax(SyntaxError::UnexpectedToken(c)));
                }
            },
            Some((c, Token::Flag(Flag::WebApp))) => {
                if !web_app {
                    web_app = true;
                    it.advance();
                } else {
                    return Err(Error::Syntax(SyntaxError::UnexpectedToken(c)));
                }
            },
            _ => {
                break ;
            },
        }
    }
    let config = FaviconConfig::new(web_app, apple_touch);
    match it.peek() {
        Some((_, Token::Flag(Flag::Output))) => match output(it) {
            Ok(out) => Ok(Command::Favicon(keyed_entries(&raw), config, out)),
            Err(e) => Err(e),
        },
        None => Ok(Command::Favicon(keyed_entries(&raw), config, Output::Stdout)),
        Some((c, _)) => Err(Error::Syntax(SyntaxError::UnexpectedToken(c))),
    }
}

} // verus!
