//! Laws that relate the transformations to each other.
//!
//! Each proof function here states a property of the whole pipeline that
//! no single contract expresses on its own: the disabled pipeline is the
//! identity, numbering prefixes follow the line counters, the end marker
//! is appended last, and the flag spellings that name the same options
//! really make the same configuration.

use vstd::prelude::*;

use crate::number::blank_prefix;
use crate::number::number_prefix;
use crate::number::spaces;
use crate::options::apply_cluster;
use crate::options::apply_long;
use crate::options::apply_short;
use crate::options::default_options;
use crate::options::long_show_all;
use crate::options::Options;
use crate::transform::line_numbered;
use crate::transform::process_from;
use crate::transform::process_lines;
use crate::transform::rendered_line;

verus! {

proof fn lemma_rendered_line_identity(o: Options, line: Seq<u8>, n: nat)
    requires
        o == default_options(),
    ensures
        rendered_line(o, line, n) == line,
{
    assert(Seq::<u8>::empty() + line =~= line);
}

proof fn lemma_identity_from(o: Options, lines: Seq<Seq<u8>>, count: nat, blanks: nat)
    requires
        o == default_options(),
    ensures
        process_from(o, lines, count, blanks) == lines,
    decreases lines.len(),
{
    if lines.len() > 0 {
        let blanks2: nat = if lines[0].len() == 0 {
            blanks + 1
        } else {
            0
        };
        lemma_identity_from(o, lines.drop_first(), count, blanks2);
        lemma_rendered_line_identity(o, lines[0], count);
        assert(seq![lines[0]] + lines.drop_first() =~= lines);
    }
}

/// With every option disabled, the output of a file equals its input
/// verbatim, line by line.
pub proof fn lemma_identity(o: Options, lines: Seq<Seq<u8>>)
    requires
        o.all_disabled(),
    ensures
        process_lines(o, lines) == lines,
{
    lemma_identity_from(o, lines, 0, 0);
}

/// The non-printing escape emits ASCII only, so its result is always
/// decodable text: the fallback to the unescaped line never has to fire.
pub proof fn lemma_escape_always_decodable(s: Seq<u8>)
    ensures
        vstd::utf8::valid_utf8(crate::escape::escape_line(s)),
{
    crate::escape::lemma_escape_line_ascii(s);
    crate::textval::lemma_ascii_valid_utf8(crate::escape::escape_line(s));
}

proof fn lemma_precedence_from(o: Options, o2: Options, lines: Seq<Seq<u8>>, c: nat, b: nat)
    requires
        o.number_nonblank,
        o2 == (Options { number: false, ..o }),
    ensures
        process_from(o, lines, c, b) == process_from(o2, lines, c, b),
    decreases lines.len(),
{
    if lines.len() > 0 {
        let blanks2: nat = if lines[0].len() == 0 {
            b + 1
        } else {
            0
        };
        let c2: nat = if line_numbered(o, lines[0]) {
            c + 1
        } else {
            c
        };
        lemma_precedence_from(o, o2, lines.drop_first(), c2, blanks2);
        lemma_precedence_from(o, o2, lines.drop_first(), c, blanks2);
        assert(rendered_line(o, lines[0], c2) == rendered_line(o2, lines[0], c2));
    }
}

/// When `number` and `number_nonblank` are both set, the output matches
/// `number_nonblank` alone: non-blank numbering wins.
pub proof fn lemma_numbering_precedence(o: Options, lines: Seq<Seq<u8>>)
    requires
        o.number,
        o.number_nonblank,
    ensures
        process_lines(o, lines) == process_lines((Options { number: false, ..o }), lines),
{
    lemma_precedence_from(o, Options { number: false, ..o }, lines, 0, 0);
}

proof fn lemma_show_ends_from(o: Options, o2: Options, lines: Seq<Seq<u8>>, c: nat, b: nat)
    requires
        o.show_ends,
        o2 == (Options { show_ends: false, ..o }),
    ensures
        process_from(o, lines, c, b).len() == process_from(o2, lines, c, b).len(),
        forall|k: int|
            0 <= k < process_from(o2, lines, c, b).len() ==> process_from(o, lines, c, b)[k]
                == process_from(o2, lines, c, b)[k] + seq![36u8],
    decreases lines.len(),
{
    if lines.len() > 0 {
        let blanks2: nat = if lines[0].len() == 0 {
            b + 1
        } else {
            0
        };
        if o.squeeze_blank && blanks2 > 1 {
            lemma_show_ends_from(o, o2, lines.drop_first(), c, blanks2);
        } else {
            let c2: nat = if line_numbered(o, lines[0]) {
                c + 1
            } else {
                c
            };
            lemma_show_ends_from(o, o2, lines.drop_first(), c2, blanks2);
            let with_marks = process_from(o, lines, c, b);
            let without = process_from(o2, lines, c, b);
            let rec_with = process_from(o, lines.drop_first(), c2, blanks2);
            let rec_without = process_from(o2, lines.drop_first(), c2, blanks2);
            assert(rendered_line(o, lines[0], c2) == rendered_line(o2, lines[0], c2) + seq![36u8]);
            assert forall|k: int| 0 <= k < without.len() implies with_marks[k] == without[k]
                + seq![36u8] by {
                if k > 0 {
                    assert(with_marks[k] == rec_with[k - 1]);
                    assert(without[k] == rec_without[k - 1]);
                }
            }
        }
    }
}

/// `show_ends` appends exactly one `$`, after all other transformations:
/// each output line equals the line produced without `show_ends`,
/// extended by the single byte `$`.
pub proof fn lemma_show_ends_marker(o: Options, lines: Seq<Seq<u8>>)
    requires
        o.show_ends,
    ensures
        process_lines(o, lines).len() == process_lines(
            (Options { show_ends: false, ..o }),
            lines,
        ).len(),
        forall|k: int|
            0 <= k < process_lines((Options { show_ends: false, ..o }), lines).len()
                ==> process_lines(o, lines)[k] == process_lines(
                (Options { show_ends: false, ..o }),
                lines,
            )[k] + seq![36u8],
{
    lemma_show_ends_from(o, Options { show_ends: false, ..o }, lines, 0, 0);
}

proof fn lemma_number_from(o: Options, lines: Seq<Seq<u8>>, c: nat, b: nat)
    requires
        o.number,
        !o.number_nonblank,
        forall|i: int| 0 <= i < lines.len() ==> lines[i].len() > 0,
    ensures
        process_from(o, lines, c, b).len() == lines.len(),
        forall|k: int|
            0 <= k < lines.len() ==> process_from(o, lines, c, b)[k] == rendered_line(
                o,
                lines[k],
                (c + k + 1) as nat,
            ),
    decreases lines.len(),
{
    if lines.len() > 0 {
        lemma_number_from(o, lines.drop_first(), (c + 1) as nat, 0);
        let result = process_from(o, lines, c, b);
        let rec = process_from(o, lines.drop_first(), (c + 1) as nat, 0);
        assert forall|k: int| 0 <= k < lines.len() implies result[k] == rendered_line(
            o,
            lines[k],
            (c + k + 1) as nat,
        ) by {
            if k > 0 {
                assert(result[k] == rec[k - 1]);
                assert(lines.drop_first()[k - 1] == lines[k]);
            }
        }
    }
}

/// With `number` set (and `number_nonblank` unset) and no blank line in
/// the input, the k-th output line (1-indexed) begins with k
/// right-aligned in six columns followed by two spaces.
pub proof fn lemma_number_prefixes(o: Options, lines: Seq<Seq<u8>>)
    requires
        o.number,
        !o.number_nonblank,
        forall|i: int| 0 <= i < lines.len() ==> lines[i].len() > 0,
    ensures
        process_lines(o, lines).len() == lines.len(),
        forall|k: int|
            #![trigger process_lines(o, lines)[k]]
            0 <= k < lines.len() ==> {
                let p = number_prefix((k + 1) as nat);
                process_lines(o, lines)[k].len() >= p.len() && process_lines(o, lines)[k].take(
                    p.len() as int,
                ) == p
            },
{
    lemma_number_from(o, lines, 0, 0);
    assert forall|k: int| #![trigger process_lines(o, lines)[k]] 0 <= k < lines.len() implies {
        let p = number_prefix((k + 1) as nat);
        process_lines(o, lines)[k].len() >= p.len() && process_lines(o, lines)[k].take(
            p.len() as int,
        ) == p
    } by {
        let p = number_prefix((k + 1) as nat);
        let r = rendered_line(o, lines[k], (k + 1) as nat);
        assert(process_lines(o, lines)[k] == r);
        assert(r.take(p.len() as int) =~= p);
    }
}

/// The number of non-blank lines among the first `k` lines.
pub open spec fn nonblank_count(lines: Seq<Seq<u8>>, k: int) -> nat
    decreases k,
{
    if k <= 0 {
        0
    } else {
        nonblank_count(lines, k - 1) + (if lines[k - 1].len() > 0 {
            1nat
        } else {
            0nat
        })
    }
}

proof fn lemma_nonblank_count_shift(lines: Seq<Seq<u8>>, j: int)
    requires
        0 <= j < lines.len(),
    ensures
        nonblank_count(lines, j + 1) == nonblank_count(lines.drop_first(), j) + (
        if lines[0].len() > 0 {
            1nat
        } else {
            0nat
        }),
    decreases j,
{
    let rest = lines.drop_first();
    if j > 0 {
        lemma_nonblank_count_shift(lines, j - 1);
        assert(rest[j - 1] == lines[j]);
        assert(nonblank_count(lines, j + 1) == nonblank_count(lines, j) + (if lines[j].len() > 0 {
            1nat
        } else {
            0nat
        }));
        assert(nonblank_count(rest, j) == nonblank_count(rest, j - 1) + (if rest[j - 1].len()
            > 0 {
            1nat
        } else {
            0nat
        }));
    } else {
        assert(nonblank_count(lines, 0) == 0);
        assert(nonblank_count(rest, 0) == 0);
        assert(nonblank_count(lines, 1) == nonblank_count(lines, 0) + (if lines[0].len() > 0 {
            1nat
        } else {
            0nat
        }));
    }
}

proof fn lemma_nonblank_from(o: Options, lines: Seq<Seq<u8>>, c: nat, b: nat)
    requires
        o.number_nonblank,
        !o.squeeze_blank,
    ensures
        process_from(o, lines, c, b).len() == lines.len(),
        forall|k: int|
            0 <= k < lines.len() ==> process_from(o, lines, c, b)[k] == rendered_line(
                o,
                lines[k],
                (c + nonblank_count(lines, k + 1)) as nat,
            ),
    decreases lines.len(),
{
    if lines.len() > 0 {
        let rest = lines.drop_first();
        let d0: nat = if lines[0].len() > 0 {
            1nat
        } else {
            0nat
        };
        let blanks2: nat = if lines[0].len() == 0 {
            b + 1
        } else {
            0
        };
        let c2: nat = c + d0;
        lemma_nonblank_from(o, rest, c2, blanks2);
        let result = process_from(o, lines, c, b);
        let rec = process_from(o, rest, c2, blanks2);
        assert forall|k: int| 0 <= k < lines.len() implies result[k] == rendered_line(
            o,
            lines[k],
            (c + nonblank_count(lines, k + 1)) as nat,
        ) by {
            if k == 0 {
                assert(nonblank_count(lines, 0) == 0);
                assert(nonblank_count(lines, 1) == nonblank_count(lines, 0) + d0);
            } else {
                lemma_nonblank_count_shift(lines, k);
                assert(result[k] == rec[k - 1]);
                assert(rest[k - 1] == lines[k]);
            }
        }
    }
}

proof fn lemma_spaces_len(n: nat)
    ensures
        spaces(n).len() == n,
    decreases n,
{
    if n > 0 {
        lemma_spaces_len((n - 1) as nat);
    }
}

/// Under `number_nonblank` (without squeezing), a blank line carries the
/// eight-space placeholder and consumes no counter value, and a
/// non-blank line is numbered with one more than the number of non-blank
/// lines before it.
pub proof fn lemma_nonblank_numbering(o: Options, lines: Seq<Seq<u8>>)
    requires
        o.number_nonblank,
        !o.squeeze_blank,
    ensures
        process_lines(o, lines).len() == lines.len(),
        forall|k: int|
            #![trigger process_lines(o, lines)[k]]
            0 <= k < lines.len() && lines[k].len() == 0 ==> process_lines(o, lines)[k].len() >= 8
                && process_lines(o, lines)[k].take(8) == blank_prefix(),
        forall|k: int|
            #![trigger process_lines(o, lines)[k]]
            0 <= k < lines.len() && lines[k].len() > 0 ==> {
                let p = number_prefix(nonblank_count(lines, k) + 1);
                process_lines(o, lines)[k].len() >= p.len() && process_lines(o, lines)[k].take(
                    p.len() as int,
                ) == p
            },
{
    lemma_nonblank_from(o, lines, 0, 0);
    lemma_spaces_len(8);
    assert forall|k: int| 0 <= k < lines.len() && lines[k].len() == 0 implies process_lines(
        o,
        lines,
    )[k].len() >= 8 && process_lines(o, lines)[k].take(8) == blank_prefix() by {
        let r = rendered_line(o, lines[k], nonblank_count(lines, k + 1));
        assert(process_lines(o, lines)[k] == r);
        assert(r.take(8) =~= blank_prefix());
    }
    assert forall|k: int| 0 <= k < lines.len() && lines[k].len() > 0 implies {
        let p = number_prefix(nonblank_count(lines, k) + 1);
        process_lines(o, lines)[k].len() >= p.len() && process_lines(o, lines)[k].take(
            p.len() as int,
        ) == p
    } by {
        let p = number_prefix(nonblank_count(lines, k) + 1);
        let r = rendered_line(o, lines[k], nonblank_count(lines, k + 1));
        assert(process_lines(o, lines)[k] == r);
        assert(nonblank_count(lines, k + 1) == nonblank_count(lines, k) + 1);
        assert(r.take(p.len() as int) =~= p);
    }
}

/// The short flag `A`, the cluster `vET`, and the long flag `--show-all`
/// make the same configuration change, so the three spellings produce
/// identical output for identical input.
pub proof fn lemma_show_all_equivalent(o: Options)
    ensures
        apply_cluster(o, seq!['-', 'A'], 1) == apply_cluster(o, seq!['-', 'v', 'E', 'T'], 1),
        apply_cluster(o, seq!['-', 'A'], 1) == apply_long(o, long_show_all()),
{
    let a = seq!['-', 'A'];
    let vet = seq!['-', 'v', 'E', 'T'];
    let o1 = Options { show_nonprinting: true, show_ends: true, show_tabs: true, ..o };
    assert(apply_short(o, 'A') == Some(o1));
    assert(apply_cluster(o1, a, 2) == Some(o1));
    assert(apply_cluster(o, a, 1) == Some(o1));
    let ov = Options { show_nonprinting: true, ..o };
    let ove = Options { show_ends: true, ..ov };
    let ovet = Options { show_tabs: true, ..ove };
    assert(apply_short(o, 'v') == Some(ov));
    assert(apply_short(ov, 'E') == Some(ove));
    assert(apply_short(ove, 'T') == Some(ovet));
    assert(apply_cluster(ovet, vet, 4) == Some(ovet));
    assert(apply_cluster(ove, vet, 3) == Some(ovet));
    assert(apply_cluster(ov, vet, 2) == Some(ovet));
    assert(apply_cluster(o, vet, 1) == Some(ovet));
    assert(ovet == o1);
    assert(apply_long(o, long_show_all()) == Some(o1));
}

} // verus!
