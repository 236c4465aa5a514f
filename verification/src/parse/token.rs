//! Classification of raw argument strings into typed tokens.
//!
//! Classification is total and deterministic: keywords are matched first,
//! then unsigned integers, and everything else is taken as a filesystem
//! path.  The spec function [`token_of`] is the reference; the executable
//! classifier is proved to agree with it on every string.

use vstd::prelude::*;

use crate::ResamplingFilter;

verus! {

/// One typed command-line token.
#[derive(Debug, PartialEq, Eq)]
pub enum Token {
    Flag(Flag),
    Command(Cmd),
    Path(String),
    Size(u32),
    Filter(ResamplingFilter),
}

/// The three icon-format command words.
#[derive(Copy, Clone, Debug, PartialEq, Eq)]
pub enum Cmd {
    Ico,
    Icns,
    Favicon,
}

/// The option flags of the grammar.
#[derive(Copy, Clone, Debug, PartialEq, Eq)]
pub enum Flag {
    Entry,
    Help,
    Version,
    Resample,
    Output,
    AppleTouch,
    WebApp,
}

/// Mathematical image of a [`Token`]: a path is taken as its character
/// sequence.
pub ghost enum TokenModel {
    Flag(Flag),
    Command(Cmd),
    Path(Seq<char>),
    Size(u32),
    Filter(ResamplingFilter),
}

impl Clone for Token {
    /// A clone is equal to the original, path string included.
    fn clone(&self) -> (r: Self)
        ensures
            r == *self,
    {
        match self {
            Token::Flag(f) => Token::Flag(*f),
            Token::Command(c) => Token::Command(*c),
            Token::Path(p) => Token::Path(p.clone()),
            Token::Size(s) => Token::Size(*s),
            Token::Filter(f) => Token::Filter(*f),
        }
    }
}

impl View for Token {
    type V = TokenModel;

    open spec fn view(&self) -> TokenModel {
        match self {
            Token::Flag(f) => TokenModel::Flag(*f),
            Token::Command(c) => TokenModel::Command(*c),
            Token::Path(p) => TokenModel::Path(p@),
            Token::Size(s) => TokenModel::Size(*s),
            Token::Filter(f) => TokenModel::Filter(*f),
        }
    }
}

/// A decimal digit.
pub open spec fn is_digit(c: char) -> bool {
    '0' <= c && c <= '9'
}

/// Numeric value of a digit character.
pub open spec fn digit_val(c: char) -> int {
    c as int - '0' as int
}

/// Every character of `s` is a decimal digit.
pub open spec fn all_digits(s: Seq<char>) -> bool {
    forall|i: int| 0 <= i < s.len() ==> is_digit(#[trigger] s[i])
}

/// Value of a digit string, most significant digit first.
pub open spec fn digits_value(s: Seq<char>) -> int
    decreases s.len(),
{
    if s.len() == 0 {
        0
    } else {
        digits_value(s.drop_last()) * 10 + digit_val(s.last())
    }
}

/// The digit part of a numeral: an optional leading `+` is dropped, as
/// `u32::from_str` accepts one.
pub open spec fn strip_sign(s: Seq<char>) -> Seq<char> {
    if s.len() > 0 && s[0] == '+' {
        s.subrange(1, s.len() as int)
    } else {
        s
    }
}

/// Strings that `u32::from_str` accepts: an optional `+`, then at least
/// one digit, with a value that fits in a `u32`.
pub open spec fn is_numeral(s: Seq<char>) -> bool {
    let d = strip_sign(s);
    d.len() > 0 && all_digits(d) && digits_value(d) <= u32::MAX
}

/// The value of a numeral.
pub open spec fn numeral_value(s: Seq<char>) -> u32 {
    digits_value(strip_sign(s)) as u32
}

/// Reference classification of one raw argument string.  Keywords take
/// precedence over the numeric and path interpretations, so a file
/// literally named like a keyword or an integer cannot be expressed as a
/// path argument.
pub open spec fn token_of(s: Seq<char>) -> TokenModel {
    if s == "ico"@ {
        TokenModel::Command(Cmd::Ico)
    } else if s == "icns"@ {
        TokenModel::Command(Cmd::Icns)
    } else if s == "favicon"@ {
        TokenModel::Command(Cmd::Favicon)
    } else if s == "-e"@ || s == "--entry"@ {
        TokenModel::Flag(Flag::Entry)
    } else if s == "-r"@ || s == "--resample"@ {
        TokenModel::Flag(Flag::Resample)
    } else if s == "nearest"@ {
        TokenModel::Filter(ResamplingFilter::Nearest)
    } else if s == "linear"@ {
        TokenModel::Filter(ResamplingFilter::Linear)
    } else if s == "cubic"@ {
        TokenModel::Filter(ResamplingFilter::Cubic)
    } else if s == "-h"@ || s == "--help"@ {
        TokenModel::Flag(Flag::Help)
    } else if s == "-v"@ || s == "--version"@ {
        TokenModel::Flag(Flag::Version)
    } else if s == "-o"@ || s == "--output"@ {
        TokenModel::Flag(Flag::Output)
    } else if s == "--apple-touch"@ {
        TokenModel::Flag(Flag::AppleTouch)
    } else if s == "--web-app"@ {
        TokenModel::Flag(Flag::WebApp)
    } else if is_numeral(s) {
        TokenModel::Size(numeral_value(s))
    } else {
        TokenModel::Path(s)
    }
}

/// A string that classifies as a path: not a keyword and not a numeral.
/// The grammar cannot express any other string as a path argument.
pub open spec fn path_like(p: Seq<char>) -> bool {
    token_of(p) == TokenModel::Path(p)
}

/// A nonnegative value: digit strings never evaluate below zero.
proof fn lemma_digits_value_nonneg(s: Seq<char>)
    requires
        all_digits(s),
    ensures
        digits_value(s) >= 0,
    decreases s.len(),
{
    if s.len() > 0 {
        assert(all_digits(s.drop_last())) by {
            assert(forall|i: int|
                0 <= i < s.len() - 1 ==> is_digit(#[trigger] s.drop_last()[i]) == is_digit(s[i]));
        }
        lemma_digits_value_nonneg(s.drop_last());
    }
}

/// Extending a digit string on the right never lowers its value.
proof fn lemma_digits_value_prefix(s: Seq<char>, i: int)
    requires
        all_digits(s),
        0 <= i <= s.len(),
    ensures
        digits_value(s.subrange(0, i)) <= digits_value(s),
    decreases s.len() - i,
{
    if i < s.len() {
        let t = s.subrange(0, i + 1);
        assert(all_digits(t));
        assert(t.drop_last() =~= s.subrange(0, i));
        lemma_digits_value_nonneg(s.subrange(0, i));
        assert(digits_value(t) == digits_value(s.subrange(0, i)) * 10 + digit_val(s[i]));
        assert(digits_value(s.subrange(0, i)) <= digits_value(t)) by {
            lemma_digits_value_nonneg(s.subrange(0, i));
        }
        lemma_digits_value_prefix(s, i + 1);
        assert(s.subrange(0, s.len() as int) =~= s);
    } else {
        assert(s.subrange(0, i) =~= s);
    }
}

/// Parses the digit part of a numeral, mirroring `u32::from_str`: `None`
/// exactly on the strings that it rejects.
fn parse_u32(s: &str) -> (r: Option<u32>)
    ensures
        is_numeral(s@) ==> r == Some(numeral_value(s@)),
        !is_numeral(s@) ==> r is None,
{
    let n = s.unicode_len();
    let start: usize = if n > 0 && s.get_char(0) == '+' {
        1
    } else {
        0
    };
    let ghost d = strip_sign(s@);
    proof {
        assert(d =~= s@.subrange(start as int, n as int));
    }
    if n == start {
        return None;
    }
    let mut acc: u32 = 0;
    let mut i: usize = start;
    while i < n
        invariant
            start <= i <= n,
            n == s@.len(),
            d == strip_sign(s@),
            d == s@.subrange(start as int, n as int),
            all_digits(s@.subrange(start as int, i as int)),
            acc == digits_value(s@.subrange(start as int, i as int)),
        decreases n - i,
    {
        let c = s.get_char(i);
        let ghost pre = s@.subrange(start as int, i as int);
        let ghost cur = s@.subrange(start as int, i as int + 1);
        proof {
            assert(cur.drop_last() =~= pre);
            assert(cur.last() == s@[i as int]);
        }
        if !('0' <= c && c <= '9') {
            proof {
                assert(d[i - start] == s@[i as int]);
                assert(!is_digit(d[i - start]));
            }
            return None;
        }
        let dv: u32 = c as u32 - 48;
        proof {
            assert(dv == digit_val(c));
        }
        let wide: u64 = acc as u64 * 10 + dv as u64;
        if wide > u32::MAX as u64 {
            proof {
                assert(digits_value(cur) == wide);
                if all_digits(d) {
                    assert(cur =~= d.subrange(0, i as int + 1 - start as int));
                    lemma_digits_value_prefix(d, i as int + 1 - start as int);
                    assert(digits_value(d) > u32::MAX);
                }
            }
            return None;
        }
        acc = wide as u32;
        i = i + 1;
    }
    proof {
        assert(s@.subrange(start as int, i as int) =~= d);
    }
    Some(acc)
}

/// The keyword literals of the grammar, as their character sequences.
pub proof fn lemma_keyword_facts()
    ensures
        "ico"@ == seq!['i', 'c', 'o'],
        "icns"@ == seq!['i', 'c', 'n', 's'],
        "favicon"@ == seq!['f', 'a', 'v', 'i', 'c', 'o', 'n'],
        "-e"@ == seq!['-', 'e'],
        "--entry"@ == seq!['-', '-', 'e', 'n', 't', 'r', 'y'],
        "-r"@ == seq!['-', 'r'],
        "--resample"@ == seq!['-', '-', 'r', 'e', 's', 'a', 'm', 'p', 'l', 'e'],
        "nearest"@ == seq!['n', 'e', 'a', 'r', 'e', 's', 't'],
        "linear"@ == seq!['l', 'i', 'n', 'e', 'a', 'r'],
        "cubic"@ == seq!['c', 'u', 'b', 'i', 'c'],
        "-h"@ == seq!['-', 'h'],
        "--help"@ == seq!['-', '-', 'h', 'e', 'l', 'p'],
        "-v"@ == seq!['-', 'v'],
        "--version"@ == seq!['-', '-', 'v', 'e', 'r', 's', 'i', 'o', 'n'],
        "-o"@ == seq!['-', 'o'],
        "--output"@ == seq!['-', '-', 'o', 'u', 't', 'p', 'u', 't'],
        "--apple-touch"@ == seq!['-', '-', 'a', 'p', 'p', 'l', 'e', '-', 't', 'o', 'u', 'c', 'h'],
        "--web-app"@ == seq!['-', '-', 'w', 'e', 'b', '-', 'a', 'p', 'p'],
{
    reveal_strlit("ico");
    reveal_strlit("icns");
    reveal_strlit("favicon");
    reveal_strlit("-e");
    reveal_strlit("--entry");
    reveal_strlit("-r");
    reveal_strlit("--resample");
    reveal_strlit("nearest");
    reveal_strlit("linear");
    reveal_strlit("cubic");
    reveal_strlit("-h");
    reveal_strlit("--help");
    reveal_strlit("-v");
    reveal_strlit("--version");
    reveal_strlit("-o");
    reveal_strlit("--output");
    reveal_strlit("--apple-touch");
    reveal_strlit("--web-app");
    assert("ico"@ =~= seq!['i', 'c', 'o']);
    assert("icns"@ =~= seq!['i', 'c', 'n', 's']);
    assert("favicon"@ =~= seq!['f', 'a', 'v', 'i', 'c', 'o', 'n']);
    assert("-e"@ =~= seq!['-', 'e']);
    assert("--entry"@ =~= seq!['-', '-', 'e', 'n', 't', 'r', 'y']);
    assert("-r"@ =~= seq!['-', 'r']);
    assert("--resample"@ =~= seq!['-', '-', 'r', 'e', 's', 'a', 'm', 'p', 'l', 'e']);
    assert("nearest"@ =~= seq!['n', 'e', 'a', 'r', 'e', 's', 't']);
    assert("linear"@ =~= seq!['l', 'i', 'n', 'e', 'a', 'r']);
    assert("cubic"@ =~= seq!['c', 'u', 'b', 'i', 'c']);
    assert("-h"@ =~= seq!['-', 'h']);
    assert("--help"@ =~= seq!['-', '-', 'h', 'e', 'l', 'p']);
    assert("-v"@ =~= seq!['-', 'v']);
    assert("--version"@ =~= seq!['-', '-', 'v', 'e', 'r', 's', 'i', 'o', 'n']);
    assert("-o"@ =~= seq!['-', 'o']);
    assert("--output"@ =~= seq!['-', '-', 'o', 'u', 't', 'p', 'u', 't']);
    assert("--apple-touch"@ =~= seq!['-', '-', 'a', 'p', 'p', 'l', 'e', '-', 't', 'o', 'u', 'c', 'h']);
    assert("--web-app"@ =~= seq!['-', '-', 'w', 'e', 'b', '-', 'a', 'p', 'p']);
}

/// Classification is total and deterministic -- [`token_of`] is a
/// function of the string alone -- and keyword strings never fall
/// through to path classification: each keyword yields its keyword
/// token, even where a file of that name was meant.
pub proof fn lemma_keywords_never_paths()
    ensures
        token_of("ico"@) == TokenModel::Command(Cmd::Ico),
        token_of("icns"@) == TokenModel::Command(Cmd::Icns),
        token_of("favicon"@) == TokenModel::Command(Cmd::Favicon),
        token_of("-e"@) == TokenModel::Flag(Flag::Entry),
        token_of("--entry"@) == TokenModel::Flag(Flag::Entry),
        token_of("-r"@) == TokenModel::Flag(Flag::Resample),
        token_of("--resample"@) == TokenModel::Flag(Flag::Resample),
        token_of("nearest"@) == TokenModel::Filter(ResamplingFilter::Nearest),
        token_of("linear"@) == TokenModel::Filter(ResamplingFilter::Linear),
        token_of("cubic"@) == TokenModel::Filter(ResamplingFilter::Cubic),
        token_of("-h"@) == TokenModel::Flag(Flag::Help),
        token_of("--help"@) == TokenModel::Flag(Flag::Help),
        token_of("-v"@) == TokenModel::Flag(Flag::Version),
        token_of("--version"@) == TokenModel::Flag(Flag::Version),
        token_of("-o"@) == TokenModel::Flag(Flag::Output),
        token_of("--output"@) == TokenModel::Flag(Flag::Output),
        token_of("--apple-touch"@) == TokenModel::Flag(Flag::AppleTouch),
        token_of("--web-app"@) == TokenModel::Flag(Flag::WebApp),
{
    lemma_keyword_facts();
}

impl Token {
    /// Classifies one raw argument string, exactly as [`token_of`] says.
    pub fn from(s: &str) -> (t: Token)
        ensures
            t@ == token_of(s@),
    {
        let owned = String::from_str(s);
        if owned == String::from_str("ico") {
            Token::Command(Cmd::Ico)
        } else if owned == String::from_str("icns") {
            Token::Command(Cmd::Icns)
        } else if owned == String::from_str("favicon") {
            Token::Command(Cmd::Favicon)
        } else if owned == String::from_str("-e") || owned == String::from_str("--entry") {
            Token::Flag(Flag::Entry)
        } else if owned == String::from_str("-r") || owned == String::from_str("--resample") {
            Token::Flag(Flag::Resample)
        } else if owned == String::from_str("nearest") {
            Token::Filter(ResamplingFilter::Nearest)
        } else if owned == String::from_str("linear") {
            Token::Filter(ResamplingFilter::Linear)
        } else if owned == String::from_str("cubic") {
            Token::Filter(ResamplingFilter::Cubic)
        } else if owned == String::from_str("-h") || owned == String::from_str("--help") {
            Token::Flag(Flag::Help)
        } else if owned == String::from_str("-v") || owned == String::from_str("--version") {
            Token::Flag(Flag::Version)
        } else if owned == String::from_str("-o") || owned == String::from_str("--output") {
            Token::Flag(Flag::Output)
        } else if owned == String::from_str("--apple-touch") {
            Token::Flag(Flag::AppleTouch)
        } else if owned == String::from_str("--web-app") {
            Token::Flag(Flag::WebApp)
        } else {
            match parse_u32(s) {
                Option::Some(size) => Token::Size(size),
                Option::None => Token::Path(String::from_str(s)),
            }
        }
    }
}

} // verus!
