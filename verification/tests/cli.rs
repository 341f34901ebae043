use lychee::{Args, ArgsError};

fn parse(words: &[&str]) -> Result<Args, ArgsError> {
    Args::try_parse_from(words)
}

#[test]
fn requires_at_least_one_path() {
    assert!(Args::try_parse_from(&[]).is_err());
}

#[test]
fn paths_and_defaults() {
    let a = parse(&["a.png", "b.png"]).unwrap();
    assert_eq!(a.paths, vec!["a.png".to_string(), "b.png".to_string()]);
    assert!(!a.fullscreen);
    assert_eq!(a.slideshow, 5);
}

#[test]
fn options_anywhere() {
    let a = parse(&["a.png", "-f", "--slideshow", "9", "dir/"]).unwrap();
    assert_eq!(a.paths, vec!["a.png".to_string(), "dir/".to_string()]);
    assert!(a.fullscreen);
    assert_eq!(a.slideshow, 9);
    let a = parse(&["--fullscreen", "--slideshow=+12", "x"]).unwrap();
    assert!(a.fullscreen);
    assert_eq!(a.slideshow, 12);
    let a = parse(&["--slideshow", "3", "--slideshow", "4", "x"]).unwrap();
    assert_eq!(a.slideshow, 4);
    let a = parse(&["-ff", "x"]).unwrap();
    assert!(a.fullscreen);
}

#[test]
fn words_that_are_paths() {
    let a = parse(&["-", "-5.png", "-.hidden", "help", "--", "-f", "--slideshow"]).unwrap();
    assert_eq!(
        a.paths,
        vec!["-", "-5.png", "-.hidden", "help", "-f", "--slideshow"]
            .into_iter()
            .map(String::from)
            .collect::<Vec<_>>(),
    );
    assert!(!a.fullscreen);
}

#[test]
fn help_and_version() {
    assert_eq!(parse(&["--help"]).err(), Some(ArgsError::Help));
    assert_eq!(parse(&["x", "-h"]).err(), Some(ArgsError::Help));
    assert_eq!(parse(&["-fh"]).err(), Some(ArgsError::Help));
    assert_eq!(parse(&["--version"]).err(), Some(ArgsError::Version));
    assert_eq!(parse(&["-V", "x"]).err(), Some(ArgsError::Version));
}

#[test]
fn malformed_command_lines() {
    assert_eq!(parse(&["--bogus", "x"]).err(), Some(ArgsError::UnknownArgument("--bogus".to_string())));
    assert_eq!(parse(&["-x"]).err(), Some(ArgsError::UnknownArgument("-x".to_string())));
    assert_eq!(parse(&["-fz", "a"]).err(), Some(ArgsError::UnknownArgument("-z".to_string())));
    assert_eq!(
        parse(&["--fullscreen=yes", "a"]).err(),
        Some(ArgsError::UnexpectedValue("--fullscreen".to_string())),
    );
    assert_eq!(parse(&["a", "--slideshow"]).err(), Some(ArgsError::MissingValue("--slideshow".to_string())));
    assert_eq!(
        parse(&["--slideshow", "-f", "a"]).err(),
        Some(ArgsError::MissingValue("--slideshow".to_string())),
    );
    assert_eq!(parse(&["--slideshow", "soon", "a"]).err(), Some(ArgsError::InvalidValue("soon".to_string())));
    assert_eq!(parse(&["--slideshow", "-1", "a"]).err(), Some(ArgsError::InvalidValue("-1".to_string())));
    assert_eq!(
        parse(&["--slideshow=18446744073709551616", "a"]).err(),
        Some(ArgsError::InvalidValue("18446744073709551616".to_string())),
    );
    assert_eq!(parse(&["-f"]).err(), Some(ArgsError::MissingPaths));
    assert_eq!(parse(&["--slideshow", "x"]).err(), Some(ArgsError::MissingPaths));
}
