//! Argument parsing: tokenization, the position-aware token stream, and
//! the top-level grammar dispatch.

use vstd::prelude::*;

pub mod combinators;
pub mod favicon;
pub mod icns;
pub mod token;

use combinators::{
    entries, expect_end, lemma_entries_position, lemma_entries_valid, lemma_output_tail_position,
    output, raw_entries_model, spec_entries, spec_expect_end, spec_output_tail, RawEntry,
};
use token::{token_of, Cmd, Flag, Token, TokenModel};

use crate::command::{ico_entries_model, Command, CommandModel};
use crate::error::{position_within, Error, SyntaxError};
use crate::keys::{size_valid, IcoKey};
use crate::{Entries, Output};

verus! {

/// The cursor position after one `advance` from `i`: the exhausted state
/// is terminal, so the position never passes the end.
pub open spec fn bump(t: Seq<TokenModel>, i: int) -> int {
    if i < t.len() {
        i + 1
    } else {
        i
    }
}

/// A peekable cursor over the token sequence, carrying the zero-based
/// index of each token for diagnostics.
pub struct TokenStream {
    tokens: Vec<Token>,
    pos: usize,
}

impl TokenStream {
    /// The tokens as a mathematical sequence.
    pub closed spec fn toks(self) -> Seq<TokenModel> {
        self.tokens@.map_values(|tk: Token| tk@)
    }

    /// The cursor position.
    pub closed spec fn pos(self) -> int {
        self.pos as int
    }

    /// The cursor never points past the end.
    pub open spec fn wf(self) -> bool {
        0 <= self.pos() <= self.toks().len()
    }

    /// A fresh stream over `tokens`, positioned at the start.
    pub fn new(tokens: Vec<Token>) -> (s: TokenStream)
        ensures
            s.wf(),
            s.toks() == tokens@.map_values(|tk: Token| tk@),
            s.pos() == 0,
    {
        TokenStream { tokens, pos: 0 }
    }

    /// Peek without consuming: the current position and a copy of the
    /// token there, or `None` once the stream is exhausted.
    pub fn peek(&self) -> (r: Option<(usize, Token)>)
        requires
            self.wf(),
        ensures
            match r {
                Some((c, tk)) => c == self.pos() && self.pos() < self.toks().len() && tk@
                    == self.toks()[self.pos()],
                None => self.pos() == self.toks().len(),
            },
    {
        if self.pos < self.tokens.len() {
            Some((self.pos, self.tokens[self.pos].clone()))
        } else {
            None
        }
    }

    /// Consume one token; on an exhausted stream the position stays put.
    pub fn advance(&mut self)
        requires
            old(self).wf(),
        ensures
            final(self).wf(),
            final(self).toks() == old(self).toks(),
            final(self).pos() == bump(old(self).toks(), old(self).pos()),
    {
        if self.pos < self.tokens.len() {
            self.pos = self.pos + 1;
        }
    }
}

/// Classifies each raw argument in order.
fn tokens(args: &Vec<String>) -> (r: Vec<Token>)
    ensures
        r@.map_values(|tk: Token| tk@) == args.deep_view().map_values(|s: Seq<char>| token_of(s)),
{
    let mut out: Vec<Token> = Vec::new();
    let mut i: usize = 0;
    while i < args.len()
        invariant
            i <= args@.len(),
            out@.len() == i,
            forall|j: int| 0 <= j < i ==> out@[j]@ == token_of(args.deep_view()[j]),
        decreases args@.len() - i,
    {
        out.push(Token::from(args[i].as_str()));
        i = i + 1;
    }
    proof {
        assert(out@.map_values(|tk: Token| tk@) =~= args.deep_view().map_values(
            |s: Seq<char>| token_of(s),
        ));
    }
    out
}

/// The ico grammar from its command word at `i`: entry clauses, then the
/// output tail.
pub open spec fn spec_ico(t: Seq<TokenModel>, i: int) -> Result<CommandModel, Error> {
    match spec_entries(Cmd::Ico, t, bump(t, i)) {
        Ok((es, j)) => match spec_output_tail(t, j) {
            Ok((out, k)) => Ok(CommandModel::Ico(es, out)),
            Err(e) => Err(e),
        },
        Err(e) => Err(e),
    }
}

/// Builds the typed entries from raw entries, all of whose sizes have an
/// ico key.
fn keyed_entries(raw: &Vec<RawEntry>) -> (r: Entries<IcoKey>)
    requires
        forall|q: int| 0 <= q < raw@.len() ==> size_valid(Cmd::Ico, (#[trigger] raw@[q]).0),
    ensures
        ico_entries_model(r@) == raw_entries_model(raw@),
{
    let mut out: Entries<IcoKey> = Vec::new();
    let mut i: usize = 0;
    while i < raw.len()
        invariant
            0 <= i <= raw@.len(),
            out@.len() == i,
            forall|q: int| 0 <= q < raw@.len() ==> size_valid(Cmd::Ico, (#[trigger] raw@[q]).0),
            forall|q: int|
                0 <= q < i ==> {
                    &&& (#[trigger] out@[q]).0.as_size() == raw@[q].0
                    &&& out@[q].1 == raw@[q].1
                    &&& out@[q].2 == raw@[q].2
                },
        decreases raw@.len() - i,
    {
        let key = IcoKey::from_size(raw[i].0).unwrap();
        out.push((key, raw[i].1.clone(), raw[i].2));
        i = i + 1;
    }
    proof {
        assert(ico_entries_model(out@) =~= raw_entries_model(raw@));
    }
    out
}

/// Parses the ico command from its command word, as [`spec_ico`] says.
fn ico(it: &mut TokenStream) -> (r: Result<Command, Error>)
    requires
        old(it).wf(),
    ensures
        final(it).wf(),
        final(it).toks() == old(it).toks(),
        match spec_ico(old(it).toks(), old(it).pos()) {
            Ok(cm) => r matches Ok(c) && c@ == cm,
            Err(e) => r matches Err(ae) && ae == e,
        },
{
    let ghost t = old(it).toks();
    let ghost i0 = bump(t, old(it).pos());
    let raw = match entries(it, Cmd::Ico) {
        Ok(v) => v,
        Err(e) => {
            return Err(e);
        },
    };
    proof {
        lemma_entries_valid(Cmd::Ico, t, i0);
        let es = spec_entries(Cmd::Ico, t, i0)->Ok_0.0;
        assert forall|q: int|
            0 <= q < raw@.len() implies size_valid(Cmd::Ico, (#[trigger] raw@[q]).0) by {
            assert(raw_entries_model(raw@)[q] == es[q]);
            assert(raw_entries_model(raw@)[q].0 == raw@[q].0);
        }
    }
    match it.peek() {
        Some((_, Token::Flag(Flag::Output))) => match output(it) {
            Ok(out) => Ok(Command::Ico(keyed_entries(&raw), out)),
            Err(e) => Err(e),
        },
        None => Ok(Command::Ico(keyed_entries(&raw), Output::Stdout)),
        Some((c, _)) => Err(Error::Syntax(SyntaxError::UnexpectedToken(c))),
    }
}

/// The whole ico grammar only reports positions inside the token list.
pub proof fn lemma_ico_position(t: Seq<TokenModel>, i: int)
    requires
        0 <= i <= t.len(),
    ensures
        position_within(spec_ico(t, i), t.len() as int),
{
    lemma_entries_position(Cmd::Ico, t, bump(t, i));
    match spec_entries(Cmd::Ico, t, bump(t, i)) {
        Ok((es, j)) => {
            lemma_output_tail_position(t, j);
        },
        Err(e) => {
        },
    }
}

/// Error positions are always reportable: every `UnexpectedToken` the
/// parser returns carries the index of a real argument, so a diagnostic
/// can always show the offending token in its context.
pub proof fn lemma_positions_reportable(argv: Seq<Seq<char>>)
    ensures
        position_within(spec_args(argv), argv.len() as int),
{
    if argv.len() > 0 {
        let t = argv.map_values(|s: Seq<char>| token_of(s));
        assert(t.len() == argv.len());
        match t[0] {
            TokenModel::Command(Cmd::Ico) => {
                lemma_ico_position(t, 0);
            },
            TokenModel::Command(Cmd::Icns) => {
                icns::lemma_icns_position(t, 0);
            },
            TokenModel::Command(Cmd::Favicon) => {
                favicon::lemma_favicon_position(t, 0);
            },
            _ => {
            },
        }
    }
}

/// The whole grammar over a token sequence: dispatch on the first token
/// to a per-format grammar, or to the bare help and version forms.
pub open spec fn spec_parse(t: Seq<TokenModel>) -> Result<CommandModel, Error> {
    if t.len() == 0 {
        Err(Error::Syntax(SyntaxError::UnexpectedEnd))
    } else {
        match t[0] {
            TokenModel::Command(Cmd::Ico) => spec_ico(t, 0),
            TokenModel::Command(Cmd::Icns) => icns::spec_icns(t, 0),
            TokenModel::Command(Cmd::Favicon) => favicon::spec_favicon(t, 0),
            TokenModel::Flag(Flag::Help) => match spec_expect_end(t, 0) {
                Ok(u) => Ok(CommandModel::Help),
                Err(e) => Err(e),
            },
            TokenModel::Flag(Flag::Version) => match spec_expect_end(t, 0) {
                Ok(u) => Ok(CommandModel::Version),
                Err(e) => Err(e),
            },
            _ => Err(Error::Syntax(SyntaxError::UnexpectedToken(0))),
        }
    }
}

/// What parsing an argument list yields: an empty list is the help
/// request; anything else is tokenized and parsed by [`spec_parse`].
pub open spec fn spec_args(argv: Seq<Seq<char>>) -> Result<CommandModel, Error> {
    if argv.len() == 0 {
        Ok(CommandModel::Help)
    } else {
        spec_parse(argv.map_values(|s: Seq<char>| token_of(s)))
    }
}

/// Parses a raw argument list into a command, exactly as [`spec_args`]
/// says: the returned command's model, or the returned error, is the one
/// the grammar assigns to `argv`.
pub fn args(argv: &Vec<String>) -> (r: Result<Command, Error>)
    ensures
        match spec_args(argv.deep_view()) {
            Ok(cm) => r matches Ok(c) && c@ == cm,
            Err(e) => r matches Err(ae) && ae == e,
        },
{
    if argv.len() == 0 {
        return Ok(Command::Help);
    }
    let toks = tokens(argv);
    let mut it = TokenStream::new(toks);
    match it.peek() {
        Some((_, Token::Command(Cmd::Ico))) => ico(&mut it),
        Some((_, Token::Command(Cmd::Icns))) => icns::parse(&mut it),
        Some((_, Token::Command(Cmd::Favicon))) => favicon::parse(&mut it),
        Some((_, Token::Flag(Flag::Help))) => expect_end(&mut it, Command::Help),
        Some((_, Token::Flag(Flag::Version))) => expect_end(&mut it, Command::Version),
        Some((c, _)) => Err(Error::Syntax(SyntaxError::UnexpectedToken(c))),
        None => Err(Error::Syntax(SyntaxError::UnexpectedEnd)),
    }
}

} // verus!
