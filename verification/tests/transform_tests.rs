use rat::lines::join_lines_bytes;
use rat::lines::split_lines_bytes;
use rat::options::parse_config;
use rat::options::Options;
use rat::options::ParseResult;
use rat::transform::process_content;
use rat::transform::process_file;

fn blines(ls: &[&str]) -> Vec<Vec<u8>> {
    ls.iter().map(|l| l.as_bytes().to_vec()).collect()
}

fn slines(out: Vec<Vec<u8>>) -> Vec<String> {
    out.into_iter()
        .map(|l| String::from_utf8(l).expect("output line decodes"))
        .collect()
}

fn opts_of(args: &[&str]) -> Options {
    match parse_config(args.iter().map(|a| a.chars().collect()).collect()) {
        ParseResult::Run(o, _) => o,
        _ => panic!("expected a run outcome"),
    }
}

#[test]
fn disabled_options_are_the_identity() {
    let input = blines(&["hello", "", "w\u{f6}rld", "\ttab"]);
    let out = process_file(&Options::default(), &input);
    assert_eq!(out, input);
}

#[test]
fn number_prefixes_every_line() {
    let o = opts_of(&["-n"]);
    let out = slines(process_file(&o, &blines(&["a", "b", "c"])));
    assert_eq!(out, vec!["     1  a", "     2  b", "     3  c"]);
}

#[test]
fn number_counts_blank_lines_too() {
    let o = opts_of(&["-n"]);
    let out = slines(process_file(&o, &blines(&["a", "", "b"])));
    assert_eq!(out, vec!["     1  a", "     2  ", "     3  b"]);
}

#[test]
fn number_nonblank_skips_blank_lines() {
    let o = opts_of(&["-b"]);
    let out = slines(process_file(&o, &blines(&["x", "", "", "y"])));
    assert_eq!(out, vec!["     1  x", "        ", "        ", "     2  y"]);
}

#[test]
fn squeeze_keeps_first_blank_of_a_run() {
    let o = opts_of(&["-s"]);
    let out = slines(process_file(&o, &blines(&["a", "", "", "", "b"])));
    assert_eq!(out, vec!["a", "", "b"]);
}

#[test]
fn squeeze_and_number_skip_together() {
    let o = opts_of(&["-sn"]);
    let out = slines(process_file(&o, &blines(&["a", "", "", "b"])));
    assert_eq!(out, vec!["     1  a", "     2  ", "     3  b"]);
}

#[test]
fn show_ends_marks_every_line_last() {
    let o = opts_of(&["-ET"]);
    let out = slines(process_file(&o, &blines(&["\t", "a", ""])));
    assert_eq!(out, vec!["^I$", "a$", "$"]);
}

#[test]
fn show_ends_comes_after_numbering() {
    let o = opts_of(&["-nE"]);
    let out = slines(process_file(&o, &blines(&["a"])));
    assert_eq!(out, vec!["     1  a$"]);
}

#[test]
fn show_tabs_rewrites_each_tab() {
    let o = opts_of(&["-T"]);
    let out = slines(process_file(&o, &blines(&["a\tb\tc"])));
    assert_eq!(out, vec!["a^Ib^Ic"]);
}

#[test]
fn both_numbering_flags_match_nonblank_alone() {
    let both = opts_of(&["-n", "-b"]);
    let nonblank = opts_of(&["-b"]);
    let input = blines(&["a", "", "b", "", "", "c"]);
    assert_eq!(process_file(&both, &input), process_file(&nonblank, &input));
}

#[test]
fn show_all_spellings_agree() {
    let a = opts_of(&["-A"]);
    let vet = opts_of(&["-vET"]);
    let long = opts_of(&["--show-all"]);
    assert_eq!(a, vet);
    assert_eq!(a, long);
    let input: Vec<Vec<u8>> = vec![vec![0u8, 9, 65, 200], b"plain".to_vec(), vec![]];
    let out_a = process_file(&a, &input);
    assert_eq!(out_a, process_file(&vet, &input));
    assert_eq!(out_a, process_file(&long, &input));
}

#[test]
fn nonprinting_escapes_controls_in_context() {
    let o = opts_of(&["-v"]);
    let out = slines(process_file(&o, &vec![vec![0u8, 65, 127]]));
    assert_eq!(out, vec!["^@A^?"]);
}

#[test]
fn tabs_expand_before_escaping() {
    // With -vT the tab becomes `^I` first, so escaping sees plain text.
    let o = opts_of(&["-vT"]);
    let out = slines(process_file(&o, &vec![vec![9u8, 1]]));
    assert_eq!(out, vec!["^I^A"]);
    // With -v alone the tab passes through unescaped.
    let o2 = opts_of(&["-v"]);
    let out2 = process_file(&o2, &vec![vec![9u8, 1]]);
    assert_eq!(out2, vec![vec![9u8, 94, 65]]);
}

#[test]
fn split_cuts_on_line_feeds() {
    assert_eq!(
        split_lines_bytes(&b"a\nb".to_vec()),
        vec![b"a".to_vec(), b"b".to_vec()]
    );
    assert_eq!(
        split_lines_bytes(&b"a\nb\n".to_vec()),
        vec![b"a".to_vec(), b"b".to_vec()]
    );
}

#[test]
fn split_edge_cases() {
    assert_eq!(split_lines_bytes(&Vec::new()), Vec::<Vec<u8>>::new());
    assert_eq!(split_lines_bytes(&b"\n".to_vec()), vec![Vec::<u8>::new()]);
    assert_eq!(
        split_lines_bytes(&b"\n\n".to_vec()),
        vec![Vec::<u8>::new(), Vec::<u8>::new()]
    );
}

#[test]
fn join_appends_one_line_feed_each() {
    assert_eq!(
        join_lines_bytes(&vec![b"a".to_vec(), b"b".to_vec()]),
        b"a\nb\n".to_vec()
    );
    assert_eq!(join_lines_bytes(&Vec::new()), Vec::<u8>::new());
}

#[test]
fn process_content_runs_the_whole_pipeline() {
    let o = opts_of(&["-n"]);
    let out = slines(process_content(&o, &b"one\ntwo\n".to_vec()));
    assert_eq!(out, vec!["     1  one", "     2  two"]);
}

#[test]
fn counters_reset_for_each_file() {
    let o = opts_of(&["-ns"]);
    let first = slines(process_file(&o, &blines(&["a", "", ""])));
    assert_eq!(first, vec!["     1  a", "     2  "]);
    // A fresh call sees fresh counters: numbering restarts and the new
    // file's leading blank is kept even after the squeezed run above.
    let second = slines(process_file(&o, &blines(&["", "b"])));
    assert_eq!(second, vec!["     1  ", "     2  b"]);
}
