//! The per-line transformation pipeline.
//!
//! Each retained input line passes, in this fixed order, through tab
//! substitution, non-printing escaping, numbering, and the end-of-line
//! marker. Blank-line classification always looks at the original line,
//! never at the transformed one, and `squeeze_blank` drops the second and
//! later blank lines of a run before any other step applies.

use vstd::prelude::*;
use vstd::utf8::valid_utf8;

use crate::escape::escape_line;
use crate::escape::escape_nonprinting;
use crate::number::blank_prefix;
use crate::number::blank_prefix_bytes;
use crate::number::number_prefix;
use crate::number::number_prefix_bytes;
use crate::options::Options;
use crate::textval::check_utf8;

verus! {

/// The tab-substitution transform: every tab byte becomes the two
/// characters `^I`, all other bytes pass through.
pub open spec fn expand_tabs(s: Seq<u8>) -> Seq<u8>
    decreases s.len(),
{
    if s.len() == 0 {
        Seq::empty()
    } else {
        expand_tabs(s.drop_last()) + (if s.last() == 9 {
            seq![94u8, 73u8]
        } else {
            seq![s.last()]
        })
    }
}

/// Replaces every tab byte of `line` with `^I`, as [`expand_tabs`]
/// describes.
pub fn expand_tabs_bytes(line: &Vec<u8>) -> (r: Vec<u8>)
    ensures
        r@ == expand_tabs(line@),
{
    let mut out: Vec<u8> = Vec::new();
    let mut i: usize = 0;
    while i < line.len()
        invariant
            i <= line.len(),
            out@ == expand_tabs(line@.take(i as int)),
        decreases line.len() - i,
    {
        let c = line[i];
        if c == 9 {
            out.push(94);
            out.push(73);
        } else {
            out.push(c);
        }
        proof {
            let t = line@.take(i + 1);
            assert(t.drop_last() =~= line@.take(i as int));
            assert(t.last() == line@[i as int]);
            assert(out@ =~= expand_tabs(t));
        }
        i = i + 1;
    }
    proof {
        assert(line@.take(line@.len() as int) =~= line@);
    }
    out
}

/// Whether this line receives a number: under `number_nonblank` exactly
/// the non-blank lines, otherwise every line when `number` is set.
/// Blankness is judged on the original line content.
pub open spec fn line_numbered(o: Options, line: Seq<u8>) -> bool {
    if o.number_nonblank {
        line.len() > 0
    } else {
        o.number
    }
}

/// One fully transformed output line: tab substitution, then non-printing
/// escaping (falling back to the unescaped bytes if the escaped sequence
/// would not decode as UTF-8 again), then the numbering prefix for line
/// number `n` (or the eight-space placeholder before a blank line under
/// `number_nonblank`), then the `$` end marker.
pub open spec fn rendered_line(o: Options, line: Seq<u8>, n: nat) -> Seq<u8> {
    let tabbed = if o.show_tabs {
        expand_tabs(line)
    } else {
        line
    };
    let escaped = if o.show_nonprinting {
        if valid_utf8(escape_line(tabbed)) {
            escape_line(tabbed)
        } else {
            tabbed
        }
    } else {
        tabbed
    };
    let prefix = if o.number_nonblank {
        if line.len() > 0 {
            number_prefix(n)
        } else {
            blank_prefix()
        }
    } else if o.number {
        number_prefix(n)
    } else {
        Seq::<u8>::empty()
    };
    let body = prefix + escaped;
    if o.show_ends {
        body + seq![36u8]
    } else {
        body
    }
}

/// Copies a byte vector.
fn clone_bytes(v: &Vec<u8>) -> (r: Vec<u8>)
    ensures
        r@ == v@,
{
    let mut out: Vec<u8> = Vec::new();
    let mut i: usize = 0;
    while i < v.len()
        invariant
            i <= v.len(),
            out@ == v@.take(i as int),
        decreases v.len() - i,
    {
        out.push(v[i]);
        proof {
            assert(out@ =~= v@.take(i + 1));
        }
        i = i + 1;
    }
    proof {
        assert(v@.take(v@.len() as int) =~= v@);
    }
    out
}

/// Transforms one line, to be printed as line number `n` if it is
/// numbered, exactly as [`rendered_line`] describes.
pub fn render_line(opts: &Options, line: &Vec<u8>, n: u64) -> (r: Vec<u8>)
    ensures
        r@ == rendered_line(*opts, line@, n as nat),
{
    let mut work: Vec<u8>;
    if opts.show_tabs {
        work = expand_tabs_bytes(line);
    } else {
        work = clone_bytes(line);
    }
    if opts.show_nonprinting {
        let escaped = escape_nonprinting(&work);
        if check_utf8(&escaped) {
            work = escaped;
        }
    }
    let mut out: Vec<u8>;
    if opts.number_nonblank {
        if line.len() > 0 {
            out = number_prefix_bytes(n);
        } else {
            out = blank_prefix_bytes();
        }
    } else if opts.number {
        out = number_prefix_bytes(n);
    } else {
        out = Vec::new();
    }
    out.append(&mut work);
    if opts.show_ends {
        out.push(36);
    }
    proof {
        assert(out@ =~= rendered_line(*opts, line@, n as nat));
    }
    out
}

/// Transforms the remaining `lines` of a file, with `count` lines already
/// numbered and `blanks` consecutive blank lines immediately behind.
/// Under `squeeze_blank` the second and later blank lines of a run
/// disappear entirely; every kept line is rendered through
/// [`rendered_line`], numbered lines with the next counter value.
pub open spec fn process_from(o: Options, lines: Seq<Seq<u8>>, count: nat, blanks: nat) -> Seq<
    Seq<u8>,
>
    decreases lines.len(),
{
    if lines.len() == 0 {
        Seq::empty()
    } else {
        let line = lines[0];
        let rest = lines.drop_first();
        let blanks2: nat = if line.len() == 0 {
            blanks + 1
        } else {
            0
        };
        if o.squeeze_blank && blanks2 > 1 {
            process_from(o, rest, count, blanks2)
        } else {
            let count2: nat = if line_numbered(o, line) {
                count + 1
            } else {
                count
            };
            seq![rendered_line(o, line, count2)] + process_from(o, rest, count2, blanks2)
        }
    }
}

/// The transformed output lines of one file: both counters start fresh,
/// so numbering and squeezing never reach across file boundaries.
pub open spec fn process_lines(o: Options, lines: Seq<Seq<u8>>) -> Seq<Seq<u8>> {
    process_from(o, lines, 0, 0)
}

/// Transforms the lines of one file, exactly as [`process_lines`]
/// describes.
pub fn process_file(opts: &Options, lines: &Vec<Vec<u8>>) -> (out: Vec<Vec<u8>>)
    ensures
        out.deep_view() == process_lines(*opts, lines.deep_view()),
{
    let ghost dv = lines.deep_view();
    let n = lines.len();
    let mut out: Vec<Vec<u8>> = Vec::new();
    let mut count: u64 = 0;
    let mut blanks: u64 = 0;
    let mut i: usize = 0;
    proof {
        assert(dv.skip(0) =~= dv);
        assert(out.deep_view() =~= Seq::<Seq<u8>>::empty());
        assert(out.deep_view() + process_from(*opts, dv.skip(0), 0nat, 0nat) =~= process_lines(
            *opts,
            dv,
        ));
    }
    while i < n
        invariant
            i <= n,
            n == lines@.len(),
            dv == lines.deep_view(),
            dv.len() == n,
            count <= i,
            blanks <= i,
            process_lines(*opts, dv) == out.deep_view() + process_from(
                *opts,
                dv.skip(i as int),
                count as nat,
                blanks as nat,
            ),
        decreases n - i,
    {
        let ghost out0 = out.deep_view();
        let ghost rem = dv.skip(i as int);
        let ghost count0 = count as nat;
        let ghost blanks0 = blanks as nat;
        let line = &lines[i];
        proof {
            assert(rem[0] == line@);
            assert(rem.drop_first() =~= dv.skip(i + 1));
        }
        let blank = line.len() == 0;
        if blank {
            blanks = blanks + 1;
        } else {
            blanks = 0;
        }
        if opts.squeeze_blank && blanks > 1 {
            proof {
                assert(process_from(*opts, rem, count0, blanks0) == process_from(
                    *opts,
                    dv.skip(i + 1),
                    count as nat,
                    blanks as nat,
                ));
            }
        } else {
            let numbered = if opts.number_nonblank {
                !blank
            } else {
                opts.number
            };
            if numbered {
                count = count + 1;
            }
            proof {
                assert(numbered == line_numbered(*opts, rem[0]));
                assert(process_from(*opts, rem, count0, blanks0) == seq![
                    rendered_line(*opts, rem[0], count as nat),
                ] + process_from(*opts, dv.skip(i + 1), count as nat, blanks as nat));
            }
            let rendered = render_line(opts, line, count);
            out.push(rendered);
            proof {
                assert(out.deep_view() =~~= out0.push(rendered_line(*opts, line@, count as nat)));
                assert(out0 + process_from(*opts, rem, count0, blanks0) =~= out.deep_view()
                    + process_from(*opts, dv.skip(i + 1), count as nat, blanks as nat));
            }
        }
        i = i + 1;
    }
    proof {
        assert(dv.skip(n as int) =~= Seq::<Seq<u8>>::empty());
        assert(out.deep_view() + process_from(
            *opts,
            dv.skip(n as int),
            count as nat,
            blanks as nat,
        ) =~= out.deep_view());
    }
    out
}

/// The whole pipeline for one file: splits `content` on line feeds and
/// transforms the lines under `opts`.
pub fn process_content(opts: &Options, content: &Vec<u8>) -> (out: Vec<Vec<u8>>)
    ensures
        out.deep_view() == process_lines(*opts, crate::lines::split_lines(content@)),
{
    let lines = crate::lines::split_lines_bytes(content);
    process_file(opts, &lines)
}

} // verus!
