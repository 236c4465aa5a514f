use icon_pie::command::{Command, FaviconConfig};
use icon_pie::error::{Error, SyntaxError};
use icon_pie::keys::{FaviconKey, IcnsKey, IcoKey};
use icon_pie::parse::args;
use icon_pie::{Output, ResamplingFilter};

fn argv(parts: &[&str]) -> Vec<String> {
    parts.iter().map(|s| String::from(*s)).collect()
}

#[test]
fn empty_argument_list_is_help() {
    assert_eq!(args(&argv(&[])), Ok(Command::Help));
}

#[test]
fn help_flag_alone_is_help() {
    assert_eq!(args(&argv(&["-h"])), Ok(Command::Help));
    assert_eq!(args(&argv(&["--help"])), Ok(Command::Help));
}

#[test]
fn help_with_trailing_token_is_rejected() {
    assert_eq!(
        args(&argv(&["-h", "extra"])),
        Err(Error::Syntax(SyntaxError::UnexpectedToken(1)))
    );
}

#[test]
fn version_flag_alone_is_version() {
    assert_eq!(args(&argv(&["-v"])), Ok(Command::Version));
    assert_eq!(args(&argv(&["--version"])), Ok(Command::Version));
}

#[test]
fn version_with_trailing_token_is_rejected() {
    assert_eq!(
        args(&argv(&["-v", "x"])),
        Err(Error::Syntax(SyntaxError::UnexpectedToken(1)))
    );
}

#[test]
fn unrecognized_first_token_is_rejected_at_zero() {
    assert_eq!(
        args(&argv(&["bogus"])),
        Err(Error::Syntax(SyntaxError::UnexpectedToken(0)))
    );
    assert_eq!(
        args(&argv(&["-r"])),
        Err(Error::Syntax(SyntaxError::UnexpectedToken(0)))
    );
}

#[test]
fn icns_three_entries_preserve_encounter_order() {
    let got = args(&argv(&["icns", "-e", "a.png", "32", "64", "-e", "b.svg", "128", "-o", "icon.icns"]));
    let expected = Command::Icns(
        vec![
            (IcnsKey::from_size(32).unwrap(), String::from("a.png"), ResamplingFilter::Nearest),
            (IcnsKey::from_size(64).unwrap(), String::from("a.png"), ResamplingFilter::Nearest),
            (IcnsKey::from_size(128).unwrap(), String::from("b.svg"), ResamplingFilter::Nearest),
        ],
        Output::Path(String::from("icon.icns")),
    );
    assert_eq!(got, Ok(expected));
}

#[test]
fn missing_output_defaults_to_stdout() {
    let got = args(&argv(&["icns", "-e", "a.png", "32"]));
    let expected = Command::Icns(
        vec![(IcnsKey::from_size(32).unwrap(), String::from("a.png"), ResamplingFilter::Nearest)],
        Output::Stdout,
    );
    assert_eq!(got, Ok(expected));
}

#[test]
fn resample_clause_selects_the_filter() {
    let got = args(&argv(&["ico", "-e", "a.png", "32", "-r", "cubic"]));
    let expected = Command::Ico(
        vec![(IcoKey::from_size(32).unwrap(), String::from("a.png"), ResamplingFilter::Cubic)],
        Output::Stdout,
    );
    assert_eq!(got, Ok(expected));
    let linear = args(&argv(&["ico", "-e", "a.png", "32", "-r", "linear"]));
    let expected_linear = Command::Ico(
        vec![(IcoKey::from_size(32).unwrap(), String::from("a.png"), ResamplingFilter::Linear)],
        Output::Stdout,
    );
    assert_eq!(linear, Ok(expected_linear));
}

#[test]
fn filter_applies_to_every_size_of_its_clause() {
    let got = args(&argv(&["icns", "-e", "a.png", "16", "32", "-r", "linear"]));
    let expected = Command::Icns(
        vec![
            (IcnsKey::from_size(16).unwrap(), String::from("a.png"), ResamplingFilter::Linear),
            (IcnsKey::from_size(32).unwrap(), String::from("a.png"), ResamplingFilter::Linear),
        ],
        Output::Stdout,
    );
    assert_eq!(got, Ok(expected));
}

#[test]
fn favicon_options_set_the_config() {
    let got = args(&argv(&["favicon", "-e", "a.png", "32", "--apple-touch", "--web-app"]));
    let expected = Command::Favicon(
        vec![(FaviconKey::from_size(32).unwrap(), String::from("a.png"), ResamplingFilter::Nearest)],
        FaviconConfig::new(true, true),
        Output::Stdout,
    );
    assert_eq!(got, Ok(expected));
}

#[test]
fn favicon_options_accept_any_order() {
    let got = args(&argv(&["favicon", "-e", "a.png", "32", "--web-app", "--apple-touch", "-o", "site"]));
    let expected = Command::Favicon(
        vec![(FaviconKey::from_size(32).unwrap(), String::from("a.png"), ResamplingFilter::Nearest)],
        FaviconConfig::new(true, true),
        Output::Path(String::from("site")),
    );
    assert_eq!(got, Ok(expected));
}

#[test]
fn favicon_single_option_leaves_the_other_unset() {
    let got = args(&argv(&["favicon", "-e", "a.png", "32", "--web-app"]));
    let expected = Command::Favicon(
        vec![(FaviconKey::from_size(32).unwrap(), String::from("a.png"), ResamplingFilter::Nearest)],
        FaviconConfig::new(true, false),
        Output::Stdout,
    );
    assert_eq!(got, Ok(expected));
}

#[test]
fn duplicate_favicon_option_is_rejected_at_its_position() {
    assert_eq!(
        args(&argv(&["favicon", "-e", "a.png", "32", "--apple-touch", "--apple-touch"])),
        Err(Error::Syntax(SyntaxError::UnexpectedToken(5)))
    );
    assert_eq!(
        args(&argv(&["favicon", "-e", "a.png", "32", "--web-app", "--web-app"])),
        Err(Error::Syntax(SyntaxError::UnexpectedToken(5)))
    );
}

#[test]
fn zero_sizes_after_a_path_is_a_syntax_error() {
    // the -o arrives where at least one size was required
    assert_eq!(
        args(&argv(&["ico", "-e", "a.png", "-o", "out.ico"])),
        Err(Error::Syntax(SyntaxError::UnexpectedToken(3)))
    );
}

#[test]
fn entry_without_path_is_rejected() {
    assert_eq!(
        args(&argv(&["ico", "-e", "-o", "out.ico"])),
        Err(Error::Syntax(SyntaxError::UnexpectedToken(2)))
    );
}

#[test]
fn exhausted_input_where_tokens_are_required() {
    assert_eq!(args(&argv(&["ico", "-e"])), Err(Error::Syntax(SyntaxError::UnexpectedEnd)));
    assert_eq!(
        args(&argv(&["ico", "-e", "a.png"])),
        Err(Error::Syntax(SyntaxError::UnexpectedEnd))
    );
    assert_eq!(
        args(&argv(&["ico", "-e", "a.png", "32", "-r"])),
        Err(Error::Syntax(SyntaxError::UnexpectedEnd))
    );
    assert_eq!(
        args(&argv(&["ico", "-e", "a.png", "32", "-o"])),
        Err(Error::Syntax(SyntaxError::UnexpectedEnd))
    );
}

#[test]
fn resample_needs_a_filter_token() {
    assert_eq!(
        args(&argv(&["ico", "-e", "a.png", "32", "-r", "bogus.png"])),
        Err(Error::Syntax(SyntaxError::UnexpectedToken(5)))
    );
}

#[test]
fn trailing_tokens_after_an_output_path_are_rejected() {
    assert_eq!(
        args(&argv(&["ico", "-e", "a.png", "32", "-o", "out.ico", "extra"])),
        Err(Error::Syntax(SyntaxError::UnexpectedToken(6)))
    );
}

#[test]
fn output_flag_needs_a_path() {
    assert_eq!(
        args(&argv(&["icns", "-e", "a.png", "32", "-o", "64"])),
        Err(Error::Syntax(SyntaxError::UnexpectedToken(5)))
    );
}

#[test]
fn ico_size_bound_at_the_container_limit() {
    let ok = args(&argv(&["ico", "-e", "a.png", "255"]));
    let expected = Command::Ico(
        vec![(IcoKey::from_size(255).unwrap(), String::from("a.png"), ResamplingFilter::Nearest)],
        Output::Stdout,
    );
    assert_eq!(ok, Ok(expected));
    assert_eq!(
        args(&argv(&["ico", "-e", "a.png", "256"])),
        Err(Error::InvalidDimensions(256))
    );
}

#[test]
fn first_invalid_size_aborts_the_parse() {
    assert_eq!(
        args(&argv(&["ico", "-e", "a.png", "300", "400"])),
        Err(Error::InvalidDimensions(300))
    );
}

#[test]
fn large_sizes_are_fine_outside_the_ico_container() {
    let got = args(&argv(&["icns", "-e", "a.png", "1024"]));
    let expected = Command::Icns(
        vec![(IcnsKey::from_size(1024).unwrap(), String::from("a.png"), ResamplingFilter::Nearest)],
        Output::Stdout,
    );
    assert_eq!(got, Ok(expected));
}

#[test]
fn duplicate_entries_are_kept_for_the_consumer_to_see() {
    let got = args(&argv(&["icns", "-e", "a.png", "32", "-e", "a.png", "32"]));
    let expected = Command::Icns(
        vec![
            (IcnsKey::from_size(32).unwrap(), String::from("a.png"), ResamplingFilter::Nearest),
            (IcnsKey::from_size(32).unwrap(), String::from("a.png"), ResamplingFilter::Nearest),
        ],
        Output::Stdout,
    );
    assert_eq!(got, Ok(expected));
}

#[test]
fn command_word_alone_parses_with_no_entries() {
    assert_eq!(args(&argv(&["ico"])), Ok(Command::Ico(vec![], Output::Stdout)));
    assert_eq!(
        args(&argv(&["icns", "-o", "out.icns"])),
        Ok(Command::Icns(vec![], Output::Path(String::from("out.icns"))))
    );
}

#[test]
fn syntax_errors_in_a_clause_come_before_its_size_validation() {
    // the filter clause is malformed, so the oversized 300 is never reached
    assert_eq!(
        args(&argv(&["ico", "-e", "a.png", "300", "-r", "7.png"])),
        Err(Error::Syntax(SyntaxError::UnexpectedToken(5)))
    );
}

#[test]
fn size_validation_of_a_clause_comes_before_the_next_clause() {
    // the first clause's 300 is rejected before the second clause is read
    assert_eq!(
        args(&argv(&["ico", "-e", "a.png", "300", "-e", "b.png"])),
        Err(Error::InvalidDimensions(300))
    );
}

#[test]
fn entry_flag_after_favicon_options_is_rejected() {
    // once the option flags begin, no further entry clause may follow
    assert_eq!(
        args(&argv(&["favicon", "-e", "a.png", "32", "--apple-touch", "-e", "b.png", "16"])),
        Err(Error::Syntax(SyntaxError::UnexpectedToken(5)))
    );
}
