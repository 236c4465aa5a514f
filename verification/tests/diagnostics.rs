use icon_pie::error::{context, joined, Error, SyntaxError};
use icon_pie::Output;

fn argv(parts: &[&str]) -> Vec<String> {
    parts.iter().map(|s| String::from(*s)).collect()
}

#[test]
fn context_splits_around_the_offending_argument() {
    let args = argv(&["favicon", "-e", "a.png", "32", "--apple-touch", "--apple-touch"]);
    let (before, at, after) = context(&args, 5);
    assert_eq!(before, "favicon -e a.png 32 --apple-touch");
    assert_eq!(at, "--apple-touch");
    assert_eq!(after, "");
}

#[test]
fn context_at_the_first_argument_has_nothing_before() {
    let args = argv(&["bogus", "-e"]);
    let (before, at, after) = context(&args, 0);
    assert_eq!(before, "");
    assert_eq!(at, "bogus");
    assert_eq!(after, "-e");
}

#[test]
fn joined_inserts_single_spaces() {
    let args = argv(&["ico", "-e", "a.png", "32"]);
    assert_eq!(joined(&args, 0, 4), "ico -e a.png 32");
    assert_eq!(joined(&args, 1, 3), "-e a.png");
    assert_eq!(joined(&args, 2, 2), "");
}

#[test]
fn error_values_carry_their_diagnostic_payload() {
    let io = Error::Io(Output::Path(String::from("out.ico")));
    assert_eq!(io, Error::Io(Output::Path(String::from("out.ico"))));
    assert_ne!(io, Error::Io(Output::Stdout));
    let dup = Error::AlreadyIncluded(32);
    assert_eq!(dup, Error::AlreadyIncluded(32));
    let syn = Error::Syntax(SyntaxError::UnexpectedEnd);
    assert_ne!(syn, Error::Syntax(SyntaxError::UnexpectedToken(0)));
}
