//! Caret/meta escaping of non-printing bytes.
//!
//! The `show_nonprinting` option renders each byte of a line in the classic
//! `cat -v` notation: printable ASCII passes through, a control byte `c`
//! becomes `^` followed by the character with code `(c + 64) % 128`, and a
//! byte with the high bit set is written as `M-` followed by the rendering
//! of `c % 128`. Tab and line-feed bytes are exempt at the line level.

use vstd::prelude::*;

verus! {

/// The escape sequence produced for a single byte: itself if printable
/// ASCII, `^X` caret notation for a control byte, and an `M-` meta prefix
/// for a byte with the high bit set.
pub open spec fn encode_byte(c: u8) -> Seq<u8>
    decreases c,
{
    if c >= 128 {
        seq![77u8, 45u8] + encode_byte((c % 128) as u8)
    } else if 31 < c && c < 127 {
        seq![c]
    } else {
        seq![94u8, ((c + 64) % 128) as u8]
    }
}

/// Appends the escape sequence of byte `c` to `out`, exactly as
/// [`encode_byte`] describes it.
pub fn convert_nonprinting(c: u8, out: &mut Vec<u8>)
    ensures
        final(out)@ == old(out)@ + encode_byte(c),
    decreases c,
{
    if c < 128 {
        if c > 31 && c < 127 {
            out.push(c);
            proof {
                assert(out@ =~= old(out)@ + encode_byte(c));
            }
        } else {
            out.push(94);
            out.push((c + 64) % 128);
            proof {
                assert(out@ =~= old(out)@ + encode_byte(c));
            }
        }
    } else {
        out.push(77);
        out.push(45);
        convert_nonprinting(c % 128, out);
        proof {
            assert(out@ =~= old(out)@ + encode_byte(c));
        }
    }
}

/// The `show_nonprinting` transform of a whole line: tab (9) and line-feed
/// (10) bytes pass through unchanged, every other byte is escaped through
/// [`encode_byte`].
pub open spec fn escape_line(s: Seq<u8>) -> Seq<u8>
    decreases s.len(),
{
    if s.len() == 0 {
        Seq::empty()
    } else {
        escape_line(s.drop_last()) + (if s.last() == 9 || s.last() == 10 {
            seq![s.last()]
        } else {
            encode_byte(s.last())
        })
    }
}

/// Escapes every byte of `line` except tabs and line feeds, returning the
/// sequence that [`escape_line`] describes.
pub fn escape_nonprinting(line: &Vec<u8>) -> (r: Vec<u8>)
    ensures
        r@ == escape_line(line@),
{
    let mut out: Vec<u8> = Vec::new();
    let mut i: usize = 0;
    while i < line.len()
        invariant
            i <= line.len(),
            out@ == escape_line(line@.take(i as int)),
        decreases line.len() - i,
    {
        let c = line[i];
        if c == 9 || c == 10 {
            out.push(c);
        } else {
            convert_nonprinting(c, &mut out);
        }
        proof {
            let t = line@.take(i + 1);
            assert(t.drop_last() =~= line@.take(i as int));
            assert(t.last() == line@[i as int]);
            if c == 9 || c == 10 {
                assert(out@ =~= escape_line(t));
            }
        }
        i = i + 1;
    }
    proof {
        assert(line@.take(line@.len() as int) =~= line@);
    }
    out
}

/// Every byte of an escape sequence is plain ASCII (below 128).
pub proof fn lemma_encode_byte_ascii(c: u8)
    ensures
        forall|j: int| 0 <= j < encode_byte(c).len() ==> encode_byte(c)[j] < 128,
    decreases c,
{
    if c >= 128 {
        lemma_encode_byte_ascii((c % 128) as u8);
        assert forall|j: int| 0 <= j < encode_byte(c).len() implies encode_byte(c)[j] < 128 by {
            if j >= 2 {
                assert(encode_byte(c)[j] == encode_byte((c % 128) as u8)[j - 2]);
            }
        }
    } else if 31 < c && c < 127 {
        assert forall|j: int| 0 <= j < encode_byte(c).len() implies encode_byte(c)[j] < 128 by {
            assert(encode_byte(c)[j] == c);
        }
    } else {
        assert forall|j: int| 0 <= j < encode_byte(c).len() implies encode_byte(c)[j] < 128 by {
            assert(encode_byte(c) == seq![94u8, ((c + 64) % 128) as u8]);
        }
    }
}

/// An escaped line contains only ASCII bytes: the meta and caret notations
/// spell every byte out in plain characters.
pub proof fn lemma_escape_line_ascii(s: Seq<u8>)
    ensures
        forall|j: int| 0 <= j < escape_line(s).len() ==> escape_line(s)[j] < 128,
    decreases s.len(),
{
    if s.len() > 0 {
        lemma_escape_line_ascii(s.drop_last());
        if !(s.last() == 9 || s.last() == 10) {
            lemma_encode_byte_ascii(s.last());
        }
        let head = escape_line(s.drop_last());
        let tail = if s.last() == 9 || s.last() == 10 {
            seq![s.last()]
        } else {
            encode_byte(s.last())
        };
        assert forall|j: int| 0 <= j < escape_line(s).len() implies escape_line(s)[j] < 128 by {
            assert(escape_line(s) == head + tail);
            if j < head.len() {
                assert(escape_line(s)[j] == head[j]);
            } else {
                assert(escape_line(s)[j] == tail[j - head.len()]);
            }
        }
    }
}

/// Escaping distributes over concatenation: a line can be escaped in
/// segments without changing the result.
pub proof fn lemma_escape_line_concat(a: Seq<u8>, b: Seq<u8>)
    ensures
        escape_line(a + b) == escape_line(a) + escape_line(b),
    decreases b.len(),
{
    if b.len() == 0 {
        assert(a + b =~= a);
        assert(escape_line(a) + escape_line(b) =~= escape_line(a));
    } else {
        lemma_escape_line_concat(a, b.drop_last());
        assert((a + b).drop_last() =~= a + b.drop_last());
        assert((a + b).last() == b.last());
        assert(escape_line(a) + escape_line(b) =~= escape_line(a + b));
    }
}

/// A tab or line-feed byte passes the non-printing escape unchanged, and
/// every other byte becomes exactly its [`encode_byte`] sequence.
/// Together with [`lemma_escape_line_concat`] this pins the escape of a
/// whole line down, byte by byte.
pub proof fn lemma_escape_line_single(b: u8)
    ensures
        escape_line(seq![b]) == if b == 9 || b == 10 {
            seq![b]
        } else {
            encode_byte(b)
        },
{
    let s = seq![b];
    assert(s.drop_last() =~= Seq::<u8>::empty());
    assert(escape_line(Seq::<u8>::empty()) == Seq::<u8>::empty());
    assert(s.last() == b);
    if b == 9 || b == 10 {
        assert(escape_line(s) =~= seq![b]);
    } else {
        assert(escape_line(s) =~= Seq::<u8>::empty() + encode_byte(b));
        assert(Seq::<u8>::empty() + encode_byte(b) =~= encode_byte(b));
    }
}

/// Performs no work.
pub fn _old_voption() {
}

} // verus!
