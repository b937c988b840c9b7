//! Resolution of command tokens into a configuration and a file list.
//!
//! Each token is classified by its prefix: `--name` selects a long flag,
//! `-xyz` is a cluster of short flags applied cumulatively, and anything
//! else is a file name, kept in order of appearance. `--help` and
//! `--version` end the resolution at once, and an unrecognized flag is a
//! fatal usage error that carries the offending token.

use vstd::prelude::*;

verus! {

/// The resolved configuration: one independent switch per transformation.
/// All options default to disabled and compose freely; `number_nonblank`
/// takes precedence over `number` when both are set.
#[derive(Clone, Copy, Debug, PartialEq, Eq, Structural)]
pub struct Options {
    /// Number every output line.
    pub number: bool,
    /// Number only non-blank lines; overrides `number`.
    pub number_nonblank: bool,
    /// Append a `$` marker to every line.
    pub show_ends: bool,
    /// Render each tab as the two characters `^I`.
    pub show_tabs: bool,
    /// Escape non-printing bytes in caret/meta notation.
    pub show_nonprinting: bool,
    /// Collapse runs of consecutive blank lines to the first one.
    pub squeeze_blank: bool,
}

/// The configuration with every option disabled.
pub open spec fn default_options() -> Options {
    Options {
        number: false,
        number_nonblank: false,
        show_ends: false,
        show_tabs: false,
        show_nonprinting: false,
        squeeze_blank: false,
    }
}

impl Default for Options {
    /// Every option starts out disabled.
    fn default() -> (r: Options)
        ensures
            r == default_options(),
    {
        Options {
            number: false,
            number_nonblank: false,
            show_ends: false,
            show_tabs: false,
            show_nonprinting: false,
            squeeze_blank: false,
        }
    }
}

impl Options {
    /// True when no transformation is enabled, so that output must equal
    /// input verbatim.
    pub open spec fn all_disabled(self) -> bool {
        self == default_options()
    }
}

/// The configuration change made by one short-flag character, or `None`
/// for a character that no flag uses. `u` is accepted and does nothing.
pub open spec fn apply_short(o: Options, c: char) -> Option<Options> {
    if c == 'A' {
        Some(Options { show_nonprinting: true, show_ends: true, show_tabs: true, ..o })
    } else if c == 'b' {
        Some(Options { number_nonblank: true, ..o })
    } else if c == 'e' {
        Some(Options { show_nonprinting: true, show_ends: true, ..o })
    } else if c == 'E' {
        Some(Options { show_ends: true, ..o })
    } else if c == 'n' {
        Some(Options { number: true, ..o })
    } else if c == 's' {
        Some(Options { squeeze_blank: true, ..o })
    } else if c == 't' {
        Some(Options { show_nonprinting: true, show_tabs: true, ..o })
    } else if c == 'T' {
        Some(Options { show_tabs: true, ..o })
    } else if c == 'u' {
        Some(o)
    } else if c == 'v' {
        Some(Options { show_nonprinting: true, ..o })
    } else {
        None
    }
}

/// Applies the short-flag characters of `t` from position `j` on,
/// cumulatively; `None` as soon as one character is unrecognized.
pub open spec fn apply_cluster(o: Options, t: Seq<char>, j: int) -> Option<Options>
    decreases t.len() - j,
{
    if j < 0 || j >= t.len() {
        Some(o)
    } else {
        match apply_short(o, t[j]) {
            Some(o2) => apply_cluster(o2, t, j + 1),
            None => None,
        }
    }
}

pub open spec fn long_show_all() -> Seq<char> {
    seq!['-', '-', 's', 'h', 'o', 'w', '-', 'a', 'l', 'l']
}

pub open spec fn long_number_nonblank() -> Seq<char> {
    seq!['-', '-', 'n', 'u', 'm', 'b', 'e', 'r', '-', 'n', 'o', 'n', 'b', 'l', 'a', 'n', 'k']
}

pub open spec fn long_show_ends() -> Seq<char> {
    seq!['-', '-', 's', 'h', 'o', 'w', '-', 'e', 'n', 'd', 's']
}

pub open spec fn long_number() -> Seq<char> {
    seq!['-', '-', 'n', 'u', 'm', 'b', 'e', 'r']
}

pub open spec fn long_squeeze_blank() -> Seq<char> {
    seq!['-', '-', 's', 'q', 'u', 'e', 'e', 'z', 'e', '-', 'b', 'l', 'a', 'n', 'k']
}

pub open spec fn long_show_tabs() -> Seq<char> {
    seq!['-', '-', 's', 'h', 'o', 'w', '-', 't', 'a', 'b', 's']
}

pub open spec fn long_show_nonprinting() -> Seq<char> {
    seq!['-', '-', 's', 'h', 'o', 'w', '-', 'n', 'o', 'n', 'p', 'r', 'i', 'n', 't', 'i', 'n', 'g']
}

pub open spec fn long_help() -> Seq<char> {
    seq!['-', '-', 'h', 'e', 'l', 'p']
}

pub open spec fn long_version() -> Seq<char> {
    seq!['-', '-', 'v', 'e', 'r', 's', 'i', 'o', 'n']
}

/// The configuration change made by a recognized long flag, or `None` for
/// an unrecognized one. `--help` and `--version` are not flags and are
/// handled separately.
pub open spec fn apply_long(o: Options, t: Seq<char>) -> Option<Options> {
    if t == long_show_all() {
        Some(Options { show_nonprinting: true, show_ends: true, show_tabs: true, ..o })
    } else if t == long_number_nonblank() {
        Some(Options { number_nonblank: true, ..o })
    } else if t == long_show_ends() {
        Some(Options { show_ends: true, ..o })
    } else if t == long_number() {
        Some(Options { number: true, ..o })
    } else if t == long_squeeze_blank() {
        Some(Options { squeeze_blank: true, ..o })
    } else if t == long_show_tabs() {
        Some(Options { show_tabs: true, ..o })
    } else if t == long_show_nonprinting() {
        Some(Options { show_nonprinting: true, ..o })
    } else {
        None
    }
}

/// A token that selects a long flag: it starts with `--`.
pub open spec fn is_long_token(t: Seq<char>) -> bool {
    t.len() >= 2 && t[0] == '-' && t[1] == '-'
}

/// A token that carries a cluster of short flags: it starts with `-` but
/// not with `--`. The bare token `-` is an empty cluster and does nothing.
pub open spec fn is_short_token(t: Seq<char>) -> bool {
    !is_long_token(t) && t.len() >= 1 && t[0] == '-'
}

/// The outcome of resolving the token list: run with a configuration and
/// file names, print the help or version text and stop, or fail on the
/// offending token.
pub enum ParseOutcome {
    Run(Options, Seq<Seq<char>>),
    Help,
    Version,
    Invalid(Seq<char>),
}

/// Resolves the remaining tokens `toks`, with options `o` and file names
/// `files` accumulated so far. `--help`, `--version` and the first
/// unrecognized flag each end the resolution at once, discarding
/// everything else.
pub open spec fn parse_from(toks: Seq<Seq<char>>, o: Options, files: Seq<Seq<char>>) -> ParseOutcome
    decreases toks.len(),
{
    if toks.len() == 0 {
        ParseOutcome::Run(o, files)
    } else {
        let t = toks[0];
        let rest = toks.drop_first();
        if is_long_token(t) {
            if t == long_help() {
                ParseOutcome::Help
            } else if t == long_version() {
                ParseOutcome::Version
            } else {
                match apply_long(o, t) {
                    Some(o2) => parse_from(rest, o2, files),
                    None => ParseOutcome::Invalid(t),
                }
            }
        } else if is_short_token(t) {
            match apply_cluster(o, t, 1) {
                Some(o2) => parse_from(rest, o2, files),
                None => ParseOutcome::Invalid(t),
            }
        } else {
            parse_from(rest, o, files.push(t))
        }
    }
}

/// Resolves a whole token list, starting from the default configuration
/// and an empty file list.
pub open spec fn parse_spec(toks: Seq<Seq<char>>) -> ParseOutcome {
    parse_from(toks, default_options(), Seq::empty())
}

/// The executable counterpart of [`ParseOutcome`], carrying vectors
/// instead of sequences.
pub enum ParseResult {
    Run(Options, Vec<Vec<char>>),
    Help,
    Version,
    Invalid(Vec<char>),
}

impl View for ParseResult {
    type V = ParseOutcome;

    open spec fn view(&self) -> ParseOutcome {
        match self {
            ParseResult::Run(o, files) => ParseOutcome::Run(*o, files.deep_view()),
            ParseResult::Help => ParseOutcome::Help,
            ParseResult::Version => ParseOutcome::Version,
            ParseResult::Invalid(t) => ParseOutcome::Invalid(t@),
        }
    }
}

/// The fixed text that precedes the offending token in the usage error.
pub open spec fn invalid_option_prefix() -> Seq<char> {
    seq![
        'c', 'a', 't', ' ', ':', ' ', 'i', 'n', 'v', 'a', 'l', 'i', 'd', ' ', 'o', 'p', 't',
        'i', 'o', 'n', ' ', '-', '-', ' ', '\'',
    ]
}

/// The full usage-error message for the offending token `t`: the fixed
/// prefix, the token itself, and a closing quote.
pub open spec fn invalid_option_text(t: Seq<char>) -> Seq<char> {
    invalid_option_prefix() + t + seq!['\'']
}

/// Builds the usage-error message for the offending token `t`, exactly as
/// [`invalid_option_text`] describes.
pub fn invalid_option_message(t: &Vec<char>) -> (r: Vec<char>)
    ensures
        r@ == invalid_option_text(t@),
{
    let mut out: Vec<char> = vec![
        'c', 'a', 't', ' ', ':', ' ', 'i', 'n', 'v', 'a', 'l', 'i', 'd', ' ', 'o', 'p', 't',
        'i', 'o', 'n', ' ', '-', '-', ' ', '\'',
    ];
    proof {
        assert(out@ =~= invalid_option_prefix());
        assert(invalid_option_prefix() + t@.take(0) =~= invalid_option_prefix());
    }
    let mut i: usize = 0;
    while i < t.len()
        invariant
            i <= t.len(),
            out@ == invalid_option_prefix() + t@.take(i as int),
        decreases t.len() - i,
    {
        out.push(t[i]);
        proof {
            assert(out@ =~= invalid_option_prefix() + t@.take(i + 1));
        }
        i = i + 1;
    }
    out.push('\'');
    proof {
        assert(t@.take(t@.len() as int) =~= t@);
        assert(out@ =~= invalid_option_text(t@));
    }
    out
}

/// True when the two vectors spell the same characters.
fn token_eq(t: &Vec<char>, pat: &Vec<char>) -> (r: bool)
    ensures
        r == (t@ == pat@),
{
    if t.len() != pat.len() {
        proof {
            assert(t@.len() != pat@.len());
        }
        return false;
    }
    let mut i: usize = 0;
    while i < t.len()
        invariant
            i <= t.len(),
            t.len() == pat.len(),
            forall|k: int| 0 <= k < i ==> t@[k] == pat@[k],
        decreases t.len() - i,
    {
        if t[i] != pat[i] {
            proof {
                assert(t@[i as int] != pat@[i as int]);
            }
            return false;
        }
        i = i + 1;
    }
    proof {
        assert(t@ =~= pat@);
    }
    true
}

/// Applies one short-flag character to the configuration, as
/// [`apply_short`] describes; `None` for an unrecognized character.
fn apply_short_flag(o: Options, c: char) -> (r: Option<Options>)
    ensures
        r == apply_short(o, c),
{
    if c == 'A' {
        Some(Options { show_nonprinting: true, show_ends: true, show_tabs: true, ..o })
    } else if c == 'b' {
        Some(Options { number_nonblank: true, ..o })
    } else if c == 'e' {
        Some(Options { show_nonprinting: true, show_ends: true, ..o })
    } else if c == 'E' {
        Some(Options { show_ends: true, ..o })
    } else if c == 'n' {
        Some(Options { number: true, ..o })
    } else if c == 's' {
        Some(Options { squeeze_blank: true, ..o })
    } else if c == 't' {
        Some(Options { show_nonprinting: true, show_tabs: true, ..o })
    } else if c == 'T' {
        Some(Options { show_tabs: true, ..o })
    } else if c == 'u' {
        Some(o)
    } else if c == 'v' {
        Some(Options { show_nonprinting: true, ..o })
    } else {
        None
    }
}

/// Applies a whole short-flag cluster (the token without its leading
/// dash), as [`apply_cluster`] describes.
fn apply_cluster_flags(o: Options, t: &Vec<char>) -> (r: Option<Options>)
    ensures
        r == apply_cluster(o, t@, 1),
{
    let mut cur = o;
    let mut j: usize = 1;
    while j < t.len()
        invariant
            1 <= j,
            apply_cluster(o, t@, 1) == apply_cluster(cur, t@, j as int),
        decreases t.len() - j,
    {
        match apply_short_flag(cur, t[j]) {
            Some(o2) => {
                cur = o2;
            },
            None => {
                return None;
            },
        }
        j = j + 1;
    }
    Some(cur)
}

/// Applies a recognized long flag to the configuration, as [`apply_long`]
/// describes; `None` for an unrecognized long token.
fn apply_long_flag(o: Options, t: &Vec<char>) -> (r: Option<Options>)
    ensures
        r == apply_long(o, t@),
{
    let show_all: Vec<char> = vec!['-', '-', 's', 'h', 'o', 'w', '-', 'a', 'l', 'l'];
    let number_nonblank: Vec<char> = vec![
        '-', '-', 'n', 'u', 'm', 'b', 'e', 'r', '-', 'n', 'o', 'n', 'b', 'l', 'a', 'n', 'k',
    ];
    let show_ends: Vec<char> = vec!['-', '-', 's', 'h', 'o', 'w', '-', 'e', 'n', 'd', 's'];
    let number: Vec<char> = vec!['-', '-', 'n', 'u', 'm', 'b', 'e', 'r'];
    let squeeze_blank: Vec<char> = vec![
        '-', '-', 's', 'q', 'u', 'e', 'e', 'z', 'e', '-', 'b', 'l', 'a', 'n', 'k',
    ];
    let show_tabs: Vec<char> = vec!['-', '-', 's', 'h', 'o', 'w', '-', 't', 'a', 'b', 's'];
    let show_nonprinting: Vec<char> = vec![
        '-', '-', 's', 'h', 'o', 'w', '-', 'n', 'o', 'n', 'p', 'r', 'i', 'n', 't', 'i', 'n', 'g',
    ];
    if token_eq(t, &show_all) {
        Some(Options { show_nonprinting: true, show_ends: true, show_tabs: true, ..o })
    } else if token_eq(t, &number_nonblank) {
        Some(Options { number_nonblank: true, ..o })
    } else if token_eq(t, &show_ends) {
        Some(Options { show_ends: true, ..o })
    } else if token_eq(t, &number) {
        Some(Options { number: true, ..o })
    } else if token_eq(t, &squeeze_blank) {
        Some(Options { squeeze_blank: true, ..o })
    } else if token_eq(t, &show_tabs) {
        Some(Options { show_tabs: true, ..o })
    } else if token_eq(t, &show_nonprinting) {
        Some(Options { show_nonprinting: true, ..o })
    } else {
        None
    }
}

/// Resolves the token list into a configuration and ordered file names,
/// or into the help, version or usage-error outcome, exactly as
/// [`parse_spec`] describes.
pub fn parse_config(tokens: Vec<Vec<char>>) -> (r: ParseResult)
    ensures
        r@ == parse_spec(tokens.deep_view()),
{
    let help: Vec<char> = vec!['-', '-', 'h', 'e', 'l', 'p'];
    let version: Vec<char> = vec!['-', '-', 'v', 'e', 'r', 's', 'i', 'o', 'n'];
    proof {
        assert(help@ =~= long_help());
        assert(version@ =~= long_version());
    }
    let mut toks = tokens;
    let mut opts = Options::default();
    let mut files: Vec<Vec<char>> = Vec::new();
    proof {
        assert(files.deep_view() =~= Seq::<Seq<char>>::empty());
    }
    while toks.len() > 0
        invariant
            parse_spec(tokens.deep_view()) == parse_from(
                toks.deep_view(),
                opts,
                files.deep_view(),
            ),
            help@ == long_help(),
            version@ == long_version(),
        decreases toks.len(),
    {
        let ghost toks0 = toks.deep_view();
        let ghost opts0 = opts;
        let ghost files0 = files.deep_view();
        let t = toks.remove(0);
        proof {
            assert(t.deep_view() =~= t@);
            assert(toks0[0] == t@);
            assert(toks.deep_view() =~= toks0.drop_first());
        }
        let is_long = t.len() >= 2 && t[0] == '-' && t[1] == '-';
        let is_short = !is_long && t.len() >= 1 && t[0] == '-';
        proof {
            assert(is_long == is_long_token(t@));
            assert(is_short == is_short_token(t@));
        }
        if is_long {
            if token_eq(&t, &help) {
                proof {
                    assert(parse_from(toks0, opts0, files0) == ParseOutcome::Help);
                }
                return ParseResult::Help;
            } else if token_eq(&t, &version) {
                proof {
                    assert(parse_from(toks0, opts0, files0) == ParseOutcome::Version);
                }
                return ParseResult::Version;
            } else {
                match apply_long_flag(opts, &t) {
                    Some(o2) => {
                        proof {
                            assert(parse_from(toks0, opts0, files0) == parse_from(
                                toks0.drop_first(),
                                o2,
                                files0,
                            ));
                        }
                        opts = o2;
                    },
                    None => {
                        proof {
                            assert(parse_from(toks0, opts0, files0) == ParseOutcome::Invalid(t@));
                        }
                        return ParseResult::Invalid(t);
                    },
                }
            }
        } else if is_short {
            match apply_cluster_flags(opts, &t) {
                Some(o2) => {
                    proof {
                        assert(parse_from(toks0, opts0, files0) == parse_from(
                            toks0.drop_first(),
                            o2,
                            files0,
                        ));
                    }
                    opts = o2;
                },
                None => {
                    proof {
                        assert(parse_from(toks0, opts0, files0) == ParseOutcome::Invalid(t@));
                    }
                    return ParseResult::Invalid(t);
                },
            }
        } else {
            files.push(t);
            proof {
                assert(files.deep_view() =~~= files0.push(t@));
                assert(parse_from(toks0, opts0, files0) == parse_from(
                    toks0.drop_first(),
                    opts0,
                    files0.push(t@),
                ));
            }
        }
    }
    proof {
        assert(parse_from(toks.deep_view(), opts, files.deep_view()) == ParseOutcome::Run(
            opts,
            files.deep_view(),
        ));
    }
    ParseResult::Run(opts, files)
}

} // verus!
