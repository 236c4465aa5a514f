use icon_pie::parse::token::{Cmd, Flag, Token};
use icon_pie::ResamplingFilter;

#[test]
fn classifies_command_words() {
    assert_eq!(Token::from("ico"), Token::Command(Cmd::Ico));
    assert_eq!(Token::from("icns"), Token::Command(Cmd::Icns));
    assert_eq!(Token::from("favicon"), Token::Command(Cmd::Favicon));
}

#[test]
fn classifies_flags_short_and_long() {
    assert_eq!(Token::from("-e"), Token::Flag(Flag::Entry));
    assert_eq!(Token::from("--entry"), Token::Flag(Flag::Entry));
    assert_eq!(Token::from("-r"), Token::Flag(Flag::Resample));
    assert_eq!(Token::from("--resample"), Token::Flag(Flag::Resample));
    assert_eq!(Token::from("-h"), Token::Flag(Flag::Help));
    assert_eq!(Token::from("--help"), Token::Flag(Flag::Help));
    assert_eq!(Token::from("-v"), Token::Flag(Flag::Version));
    assert_eq!(Token::from("--version"), Token::Flag(Flag::Version));
    assert_eq!(Token::from("-o"), Token::Flag(Flag::Output));
    assert_eq!(Token::from("--output"), Token::Flag(Flag::Output));
    assert_eq!(Token::from("--apple-touch"), Token::Flag(Flag::AppleTouch));
    assert_eq!(Token::from("--web-app"), Token::Flag(Flag::WebApp));
}

#[test]
fn classifies_filters() {
    assert_eq!(Token::from("nearest"), Token::Filter(ResamplingFilter::Nearest));
    assert_eq!(Token::from("linear"), Token::Filter(ResamplingFilter::Linear));
    assert_eq!(Token::from("cubic"), Token::Filter(ResamplingFilter::Cubic));
}

#[test]
fn classifies_sizes_like_u32_from_str() {
    assert_eq!(Token::from("32"), Token::Size(32));
    assert_eq!(Token::from("0"), Token::Size(0));
    assert_eq!(Token::from("032"), Token::Size(32));
    assert_eq!(Token::from("+32"), Token::Size(32));
    assert_eq!(Token::from("4294967295"), Token::Size(u32::MAX));
}

#[test]
fn strings_that_are_not_numerals_are_paths() {
    assert_eq!(Token::from("a.png"), Token::Path(String::from("a.png")));
    assert_eq!(Token::from(""), Token::Path(String::from("")));
    assert_eq!(Token::from("+"), Token::Path(String::from("+")));
    assert_eq!(Token::from("-5"), Token::Path(String::from("-5")));
    assert_eq!(Token::from("3.2"), Token::Path(String::from("3.2")));
    assert_eq!(Token::from("4294967296"), Token::Path(String::from("4294967296")));
    assert_eq!(Token::from("99999999999999"), Token::Path(String::from("99999999999999")));
}

#[test]
fn keywords_never_fall_through_to_paths() {
    // a file literally named like a keyword cannot be expressed
    assert_ne!(Token::from("favicon"), Token::Path(String::from("favicon")));
    assert_ne!(Token::from("nearest"), Token::Path(String::from("nearest")));
    assert_ne!(Token::from("32"), Token::Path(String::from("32")));
}
