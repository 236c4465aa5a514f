use icon_pie::command::{Command, FaviconConfig};
use icon_pie::keys::{FaviconKey, IcoKey};
use icon_pie::parse::args;
use icon_pie::{Output, ResamplingFilter};

fn argv(parts: &[&str]) -> Vec<String> {
    parts.iter().map(|s| String::from(*s)).collect()
}

#[test]
fn ico_command_round_trips_through_canonical_form() {
    let first = args(&argv(&["ico", "-e", "a.png", "32", "64", "-o", "icon.ico"])).unwrap();
    // canonical form: one entry clause per entry, filter spelled out
    let canonical = argv(&[
        "ico", "-e", "a.png", "32", "-r", "nearest", "-e", "a.png", "64", "-r", "nearest", "-o",
        "icon.ico",
    ]);
    let second = args(&canonical).unwrap();
    assert_eq!(first, second);
}

#[test]
fn favicon_command_round_trips_through_canonical_form() {
    let first = args(&argv(&["favicon", "-e", "a.png", "16", "-r", "cubic", "--web-app"])).unwrap();
    let canonical = argv(&["favicon", "-e", "a.png", "16", "-r", "cubic", "--web-app"]);
    let second = args(&canonical).unwrap();
    assert_eq!(first, second);
    let expected = Command::Favicon(
        vec![(FaviconKey::from_size(16).unwrap(), String::from("a.png"), ResamplingFilter::Cubic)],
        FaviconConfig::new(true, false),
        Output::Stdout,
    );
    assert_eq!(second, expected);
}

#[test]
fn help_round_trips_through_its_canonical_flag() {
    let first = args(&argv(&[])).unwrap();
    let second = args(&argv(&["-h"])).unwrap();
    assert_eq!(first, second);
    assert_eq!(second, Command::Help);
}

#[test]
fn ico_keys_remember_their_size() {
    assert_eq!(IcoKey::from_size(255).map(|k| k.size()), Some(255));
    assert_eq!(IcoKey::from_size(0).map(|k| k.size()), Some(0));
    assert!(IcoKey::from_size(256).is_none());
    assert!(IcoKey::from_size(u32::MAX).is_none());
}
