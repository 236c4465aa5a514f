use icon_pie::error::{Error, SyntaxError};
use icon_pie::parse::combinators::{entry, RawEntry};
use icon_pie::parse::token::{Cmd, Flag, Token};
use icon_pie::parse::TokenStream;
use icon_pie::ResamplingFilter;

#[test]
fn clause_without_sizes_leaves_the_accumulator_unchanged() {
    // -e a.png -o out.ico : the -o arrives where at least one size was required
    let tokens = vec![
        Token::Flag(Flag::Entry),
        Token::Path(String::from("a.png")),
        Token::Flag(Flag::Output),
        Token::Path(String::from("out.ico")),
    ];
    let mut stream = TokenStream::new(tokens);
    let mut entries: Vec<RawEntry> = Vec::new();
    let r = entry(&mut stream, Cmd::Ico, &mut entries);
    assert_eq!(r, Err(Error::Syntax(SyntaxError::UnexpectedToken(2))));
    assert!(entries.is_empty());
}

#[test]
fn clause_without_path_leaves_the_accumulator_unchanged() {
    let tokens = vec![Token::Flag(Flag::Entry), Token::Size(32)];
    let mut stream = TokenStream::new(tokens);
    let mut entries: Vec<RawEntry> = Vec::new();
    let r = entry(&mut stream, Cmd::Ico, &mut entries);
    assert_eq!(r, Err(Error::Syntax(SyntaxError::UnexpectedToken(1))));
    assert!(entries.is_empty());
}

#[test]
fn exhausted_clause_leaves_the_accumulator_unchanged() {
    let tokens = vec![Token::Flag(Flag::Entry)];
    let mut stream = TokenStream::new(tokens);
    let mut entries: Vec<RawEntry> = Vec::new();
    let r = entry(&mut stream, Cmd::Ico, &mut entries);
    assert_eq!(r, Err(Error::Syntax(SyntaxError::UnexpectedEnd)));
    assert!(entries.is_empty());

    let tokens = vec![Token::Flag(Flag::Entry), Token::Path(String::from("a.png"))];
    let mut stream = TokenStream::new(tokens);
    let r = entry(&mut stream, Cmd::Ico, &mut entries);
    assert_eq!(r, Err(Error::Syntax(SyntaxError::UnexpectedEnd)));
    assert!(entries.is_empty());
}

#[test]
fn malformed_filter_clause_leaves_the_accumulator_unchanged() {
    // the filter error comes before conversion, so even the valid 32 is not appended
    let tokens = vec![
        Token::Flag(Flag::Entry),
        Token::Path(String::from("a.png")),
        Token::Size(32),
        Token::Flag(Flag::Resample),
        Token::Path(String::from("bogus")),
    ];
    let mut stream = TokenStream::new(tokens);
    let mut entries: Vec<RawEntry> = Vec::new();
    let r = entry(&mut stream, Cmd::Ico, &mut entries);
    assert_eq!(r, Err(Error::Syntax(SyntaxError::UnexpectedToken(4))));
    assert!(entries.is_empty());
}

#[test]
fn invalid_size_appends_only_the_entries_before_it() {
    // 32 converts, 300 is rejected, 400 is never reached
    let tokens = vec![
        Token::Flag(Flag::Entry),
        Token::Path(String::from("a.png")),
        Token::Size(32),
        Token::Size(300),
        Token::Size(400),
    ];
    let mut stream = TokenStream::new(tokens);
    let mut entries: Vec<RawEntry> = Vec::new();
    let r = entry(&mut stream, Cmd::Ico, &mut entries);
    assert_eq!(r, Err(Error::InvalidDimensions(300)));
    assert_eq!(
        entries,
        vec![(32, String::from("a.png"), ResamplingFilter::Nearest)]
    );
}

#[test]
fn first_size_invalid_appends_nothing() {
    let tokens = vec![
        Token::Flag(Flag::Entry),
        Token::Path(String::from("a.png")),
        Token::Size(256),
        Token::Size(32),
    ];
    let mut stream = TokenStream::new(tokens);
    let mut entries: Vec<RawEntry> = Vec::new();
    let r = entry(&mut stream, Cmd::Ico, &mut entries);
    assert_eq!(r, Err(Error::InvalidDimensions(256)));
    assert!(entries.is_empty());
}

#[test]
fn successful_clause_appends_in_size_order() {
    let tokens = vec![
        Token::Flag(Flag::Entry),
        Token::Path(String::from("a.png")),
        Token::Size(16),
        Token::Size(32),
        Token::Flag(Flag::Resample),
        Token::Filter(ResamplingFilter::Linear),
    ];
    let mut stream = TokenStream::new(tokens);
    let mut entries: Vec<RawEntry> = Vec::new();
    let r = entry(&mut stream, Cmd::Icns, &mut entries);
    assert_eq!(r, Ok(()));
    assert_eq!(
        entries,
        vec![
            (16, String::from("a.png"), ResamplingFilter::Linear),
            (32, String::from("a.png"), ResamplingFilter::Linear),
        ]
    );
}
