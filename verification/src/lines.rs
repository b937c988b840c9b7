//! Splitting file content into lines and joining output lines.
//!
//! Content is split on line-feed bytes, keeping no terminator: a trailing
//! line feed closes the last line rather than opening an empty one, as a
//! line-oriented tool expects. Joining appends one line feed after every
//! output line.

use vstd::prelude::*;

verus! {

/// The lines of `s`, split on line-feed bytes, with no terminators kept.
/// A trailing line feed yields no extra empty line; empty content yields
/// no lines at all.
pub open spec fn split_lines(s: Seq<u8>) -> Seq<Seq<u8>>
    decreases s.len(),
    via split_lines_decreases
{
    if s.len() == 0 {
        Seq::empty()
    } else {
        match s.index_of_first(10u8) {
            Some(i) => seq![s.take(i)] + split_lines(s.skip(i + 1)),
            None => seq![s],
        }
    }
}

#[via_fn]
proof fn split_lines_decreases(s: Seq<u8>) {
    if s.len() != 0 {
        match s.index_of_first(10u8) {
            Some(i) => {
                s.index_of_first_ensures(10u8);
            },
            None => {},
        }
    }
}

/// The concatenation of `lines` with one line feed after each line.
pub open spec fn join_lines(lines: Seq<Seq<u8>>) -> Seq<u8>
    decreases lines.len(),
{
    if lines.len() == 0 {
        Seq::empty()
    } else {
        join_lines(lines.drop_last()) + lines.last() + seq![10u8]
    }
}

/// Splits `content` on line-feed bytes, as [`split_lines`] describes.
pub fn split_lines_bytes(content: &Vec<u8>) -> (r: Vec<Vec<u8>>)
    ensures
        r.deep_view() == split_lines(content@),
{
    let n = content.len();
    let mut out: Vec<Vec<u8>> = Vec::new();
    let mut cur: Vec<u8> = Vec::new();
    let mut i: usize = 0;
    proof {
        assert(cur@ + content@.skip(0) =~= content@);
        assert(out.deep_view() =~= Seq::<Seq<u8>>::empty());
        assert(out.deep_view() + split_lines(cur@ + content@.skip(0)) =~= split_lines(content@));
    }
    while i < n
        invariant
            i <= n,
            n == content@.len(),
            forall|k: int| 0 <= k < cur@.len() ==> cur@[k] != 10,
            split_lines(content@) == out.deep_view() + split_lines(
                cur@ + content@.skip(i as int),
            ),
        decreases n - i,
    {
        let ghost out0 = out.deep_view();
        let ghost cur0 = cur@;
        let ghost rem = cur@ + content@.skip(i as int);
        let b = content[i];
        if b == 10 {
            proof {
                assert(rem.len() > 0);
                assert(rem[cur0.len() as int] == 10);
                assert(forall|j: int| 0 <= j < cur0.len() ==> rem[j] == cur0[j] && rem[j] != 10);
                rem.index_of_first_ensures(10u8);
                let fi = rem.index_of_first(10u8);
                match fi {
                    Some(x) => {
                        assert(rem[x] == 10);
                        assert(x == cur0.len()) by {
                            if x < cur0.len() {
                                assert(rem[x] != 10);
                            }
                            if x > cur0.len() {
                                assert(rem[cur0.len() as int] != 10);
                            }
                        }
                    },
                    None => {
                        assert(!rem.contains(10u8));
                        assert(rem[cur0.len() as int] == 10);
                        assert(false);
                    },
                }
                assert(rem.take(cur0.len() as int) =~= cur0);
                assert(rem.skip(cur0.len() as int + 1) =~= content@.skip(i + 1));
                assert(split_lines(rem) == seq![cur0] + split_lines(content@.skip(i + 1)));
            }
            out.push(cur);
            cur = Vec::new();
            proof {
                assert(out.deep_view() =~~= out0.push(cur0));
                assert(out0.push(cur0) =~= out0 + seq![cur0]);
                assert(cur@ + content@.skip(i + 1) =~= content@.skip(i + 1));
                assert(out.deep_view() + split_lines(cur@ + content@.skip(i + 1)) =~= split_lines(
                    content@,
                ));
            }
        } else {
            cur.push(b);
            proof {
                assert(cur@ + content@.skip(i + 1) =~= rem);
            }
        }
        i = i + 1;
    }
    proof {
        assert(cur@ + content@.skip(n as int) =~= cur@);
    }
    if cur.len() > 0 {
        let ghost out0 = out.deep_view();
        let ghost cur0 = cur@;
        proof {
            cur0.index_of_first_ensures(10u8);
            match cur0.index_of_first(10u8) {
                Some(x) => {
                    assert(cur0[x] == 10);
                    assert(false);
                },
                None => {},
            }
            assert(split_lines(cur0) == seq![cur0]);
        }
        out.push(cur);
        proof {
            assert(out.deep_view() =~~= out0.push(cur0));
            assert(out0.push(cur0) =~= out0 + seq![cur0]);
            assert(out.deep_view() =~= split_lines(content@));
        }
    } else {
        proof {
            assert(split_lines(cur@) =~= Seq::<Seq<u8>>::empty());
            assert(out.deep_view() + split_lines(cur@) =~= out.deep_view());
        }
    }
    out
}

/// Joins the output lines into one buffer, a line feed after each line,
/// as [`join_lines`] describes.
pub fn join_lines_bytes(lines: &Vec<Vec<u8>>) -> (r: Vec<u8>)
    ensures
        r@ == join_lines(lines.deep_view()),
{
    let ghost dv = lines.deep_view();
    let mut out: Vec<u8> = Vec::new();
    let mut i: usize = 0;
    while i < lines.len()
        invariant
            i <= lines.len(),
            dv == lines.deep_view(),
            dv.len() == lines@.len(),
            out@ == join_lines(dv.take(i as int)),
        decreases lines.len() - i,
    {
        let line = &lines[i];
        proof {
            assert(line@ == dv[i as int]);
        }
        let mut j: usize = 0;
        while j < line.len()
            invariant
                j <= line.len(),
                line@ == dv[i as int],
                i < dv.len(),
                out@ == join_lines(dv.take(i as int)) + line@.take(j as int),
            decreases line.len() - j,
        {
            out.push(line[j]);
            proof {
                assert(line@.take(j + 1) =~= line@.take(j as int).push(line@[j as int]));
                assert(out@ =~= join_lines(dv.take(i as int)) + line@.take(j + 1));
            }
            j = j + 1;
        }
        out.push(10);
        proof {
            assert(line@.take(line@.len() as int) =~= line@);
            let t = dv.take(i + 1);
            assert(t.drop_last() =~= dv.take(i as int));
            assert(t.last() == dv[i as int]);
            assert(out@ =~= join_lines(dv.take(i + 1)));
        }
        i = i + 1;
    }
    proof {
        assert(dv.take(dv.len() as int) =~= dv);
    }
    out
}

} // verus!
