use rat::options::invalid_option_message;
use rat::options::parse_config;
use rat::options::Options;
use rat::options::ParseResult;

fn chars(s: &str) -> Vec<char> {
    s.chars().collect()
}

fn toks(args: &[&str]) -> Vec<Vec<char>> {
    args.iter().map(|a| chars(a)).collect()
}

fn run_of(r: ParseResult) -> (Options, Vec<String>) {
    match r {
        ParseResult::Run(o, files) => {
            (o, files.into_iter().map(|f| f.into_iter().collect()).collect())
        }
        _ => panic!("expected a run outcome"),
    }
}

#[test]
fn no_arguments_gives_defaults() {
    let (o, files) = run_of(parse_config(toks(&[])));
    assert_eq!(o, Options::default());
    assert!(files.is_empty());
}

#[test]
fn long_flags_set_their_fields() {
    let (o, files) = run_of(parse_config(toks(&[
        "--number",
        "--show-ends",
        "--show-tabs",
        "--show-nonprinting",
        "--squeeze-blank",
        "--number-nonblank",
    ])));
    assert!(o.number);
    assert!(o.show_ends);
    assert!(o.show_tabs);
    assert!(o.show_nonprinting);
    assert!(o.squeeze_blank);
    assert!(o.number_nonblank);
    assert!(files.is_empty());
}

#[test]
fn short_cluster_is_cumulative() {
    let (o, _) = run_of(parse_config(toks(&["-ns"])));
    assert!(o.number);
    assert!(o.squeeze_blank);
    assert!(!o.show_ends);
}

#[test]
fn short_e_and_t_imply_nonprinting() {
    let (o, _) = run_of(parse_config(toks(&["-e"])));
    assert!(o.show_nonprinting && o.show_ends && !o.show_tabs);
    let (o2, _) = run_of(parse_config(toks(&["-t"])));
    assert!(o2.show_nonprinting && o2.show_tabs && !o2.show_ends);
}

#[test]
fn short_u_is_accepted_and_ignored() {
    let (o, files) = run_of(parse_config(toks(&["-u", "f"])));
    assert_eq!(o, Options::default());
    assert_eq!(files, vec!["f".to_string()]);
}

#[test]
fn bare_dash_is_an_empty_cluster() {
    let (o, files) = run_of(parse_config(toks(&["-"])));
    assert_eq!(o, Options::default());
    assert!(files.is_empty());
}

#[test]
fn double_dash_alone_is_invalid() {
    match parse_config(toks(&["--"])) {
        ParseResult::Invalid(t) => assert_eq!(t.into_iter().collect::<String>(), "--"),
        _ => panic!("expected the usage error"),
    }
}

#[test]
fn filenames_keep_their_order_around_flags() {
    let (o, files) = run_of(parse_config(toks(&["a.txt", "-n", "b.txt", "-s", "c.txt"])));
    assert!(o.number && o.squeeze_blank);
    assert_eq!(
        files,
        vec!["a.txt".to_string(), "b.txt".to_string(), "c.txt".to_string()]
    );
}

#[test]
fn empty_token_is_a_filename() {
    let (_, files) = run_of(parse_config(toks(&[""])));
    assert_eq!(files, vec![String::new()]);
}

#[test]
fn unknown_short_flag_is_fatal() {
    match parse_config(toks(&["-z", "file"])) {
        ParseResult::Invalid(t) => assert_eq!(t.into_iter().collect::<String>(), "-z"),
        _ => panic!("expected the usage error"),
    }
}

#[test]
fn unknown_long_flag_is_fatal() {
    match parse_config(toks(&["--bogus"])) {
        ParseResult::Invalid(t) => assert_eq!(t.into_iter().collect::<String>(), "--bogus"),
        _ => panic!("expected the usage error"),
    }
}

#[test]
fn invalid_message_spells_the_token() {
    let m: String = invalid_option_message(&chars("-z")).into_iter().collect();
    assert_eq!(m, "cat : invalid option -- '-z'");
    let m2: String = invalid_option_message(&chars("--bogus")).into_iter().collect();
    assert_eq!(m2, "cat : invalid option -- '--bogus'");
}

#[test]
fn help_wins_over_later_tokens() {
    assert!(matches!(
        parse_config(toks(&["--help", "--bogus"])),
        ParseResult::Help
    ));
}

#[test]
fn version_discards_earlier_files() {
    assert!(matches!(
        parse_config(toks(&["file", "--version"])),
        ParseResult::Version
    ));
}

#[test]
fn error_before_help_wins() {
    assert!(matches!(
        parse_config(toks(&["-z", "--help"])),
        ParseResult::Invalid(_)
    ));
}

#[test]
fn bad_character_inside_cluster_reports_whole_token() {
    match parse_config(toks(&["-nzx"])) {
        ParseResult::Invalid(t) => assert_eq!(t.into_iter().collect::<String>(), "-nzx"),
        _ => panic!("expected the usage error"),
    }
}
