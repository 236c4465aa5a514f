//! The icns command grammar: entry clauses followed by the output tail.

use vstd::prelude::*;

use crate::command::{icns_entries_model, Command, CommandModel};
use crate::error::{position_within, Error, SyntaxError};
use crate::keys::{size_valid, IcnsKey};
use crate::parse::combinators::{
    entries, lemma_entries_position, lemma_entries_valid, lemma_output_tail_position, output,
    raw_entries_model, spec_entries, spec_output_tail, RawEntry,
};
use crate::parse::token::{Cmd, Flag, Token, TokenModel};
use crate::parse::{bump, TokenStream};
use crate::{Entries, Output};

verus! {

/// The icns grammar from its command word at `i`: entry clauses, then
/// the output tail.
pub open spec fn spec_icns(t: Seq<TokenModel>, i: int) -> Result<CommandModel, Error> {
    match spec_entries(Cmd::Icns, t, bump(t, i)) {
        Ok((es, j)) => match spec_output_tail(t, j) {
            Ok((out, k)) => Ok(CommandModel::Icns(es, out)),
            Err(e) => Err(e),
        },
        Err(e) => Err(e),
    }
}

/// The whole icns grammar only reports positions inside the token list.
pub proof fn lemma_icns_position(t: Seq<TokenModel>, i: int)
    requires
        0 <= i <= t.len(),
    ensures
        position_within(spec_icns(t, i), t.len() as int),
{
    lemma_entries_position(Cmd::Icns, t, bump(t, i));
    match spec_entries(Cmd::Icns, t, bump(t, i)) {
        Ok((es, j)) => {
            lemma_output_tail_position(t, j);
        },
        Err(e) => {
        },
    }
}

/// Builds the typed entries from raw entries, all of whose sizes have an
/// icns key.
fn keyed_entries(raw: &Vec<RawEntry>) -> (r: Entries<IcnsKey>)
    requires
        forall|q: int| 0 <= q < raw@.len() ==> size_valid(Cmd::Icns, (#[trigger] raw@[q]).0),
    ensures
        icns_entries_model(r@) == raw_entries_model(raw@),
{
    let mut out: Entries<IcnsKey> = Vec::new();
    let mut i: usize = 0;
    while i < raw.len()
        invariant
            0 <= i <= raw@.len(),
            out@.len() == i,
            forall|q: int| 0 <= q < raw@.len() ==> size_valid(Cmd::Icns, (#[trigger] raw@[q]).0),
            forall|q: int|
                0 <= q < i ==> {
                    &&& (#[trigger] out@[q]).0.as_size() == raw@[q].0
                    &&& out@[q].1 == raw@[q].1
                    &&& out@[q].2 == raw@[q].2
                },
        decreases raw@.len() - i,
    {
        let key = IcnsKey::from_size(raw[i].0).unwrap();
        out.push((key, raw[i].1.clone(), raw[i].2));
        i = i + 1;
    }
    proof {
        assert(icns_entries_model(out@) =~= raw_entries_model(raw@));
    }
    out
}

/// Parses the icns command from its command word, as [`spec_icns`] says.
pub fn parse(it: &mut TokenStream) -> (r: Result<Command, Error>)
    requires
        old(it).wf(),
    ensures
        final(it).wf(),
        final(it).toks() == old(it).toks(),
        match spec_icns(old(it).toks(), old(it).pos()) {
            Ok(cm) => r matches Ok(c) && c@ == cm,
            Err(e) => r matches Err(ae) && ae == e,
        },
{
    let ghost t = old(it).toks();
    let ghost i0 = bump(t, old(it).pos());
    let raw = match entries(it, Cmd::Icns) {
        Ok(v) => v,
        Err(e) => {
            return Err(e);
        },
    };
    proof {
        lemma_entries_valid(Cmd::Icns, t, i0);
        let es = spec_entries(Cmd::Icns, t, i0)->Ok_0.0;
        assert forall|q: int|
            0 <= q < raw@.len() implies size_valid(Cmd::Icns, (#[trigger] raw@[q]).0) by {
            assert(raw_entries_model(raw@)[q] == es[q]);
            assert(raw_entries_model(raw@)[q].0 == raw@[q].0);
        }
    }
    match it.peek() {
        Some((_, Token::Flag(Flag::Output))) => match output(it) {
            Ok(out) => Ok(Command::Icns(keyed_entries(&raw), out)),
            Err(e) => Err(e),
        },
        None => Ok(Command::Icns(keyed_entries(&raw), Output::Stdout)),
        Some((c, _)) => Err(Error::Syntax(SyntaxError::UnexpectedToken(c))),
    }
}

} // verus!
