//! Formatting of line-number prefixes.
//!
//! A numbered output line carries its line number right-aligned in six
//! columns followed by two spaces, for a total prefix width of eight
//! columns. A blank line under `number_nonblank` carries eight literal
//! spaces instead, so that both prefixes line up.

use vstd::prelude::*;

verus! {

/// The decimal digit characters of `n`, most significant first.
pub open spec fn dec_digits(n: nat) -> Seq<u8>
    decreases n,
{
    if n < 10 {
        seq![(48 + n) as u8]
    } else {
        dec_digits(n / 10) + seq![(48 + n % 10) as u8]
    }
}

/// `n` space characters.
pub open spec fn spaces(n: nat) -> Seq<u8>
    decreases n,
{
    if n == 0 {
        Seq::empty()
    } else {
        spaces((n - 1) as nat) + seq![32u8]
    }
}

/// The numbering prefix for line number `n`: the decimal digits
/// right-aligned in six columns, then two spaces.
pub open spec fn number_prefix(n: nat) -> Seq<u8> {
    let d = dec_digits(n);
    if d.len() < 6 {
        spaces((6 - d.len()) as nat) + d + seq![32u8, 32u8]
    } else {
        d + seq![32u8, 32u8]
    }
}

/// The eight-space placeholder that `number_nonblank` puts before a blank
/// line in place of a number.
pub open spec fn blank_prefix() -> Seq<u8> {
    spaces(8)
}

/// Appends the decimal digits of `n` to `out`, most significant first.
fn push_decimal(n: u64, out: &mut Vec<u8>)
    ensures
        final(out)@ == old(out)@ + dec_digits(n as nat),
    decreases n,
{
    if n < 10 {
        out.push(48 + n as u8);
        proof {
            assert(out@ =~= old(out)@ + dec_digits(n as nat));
        }
    } else {
        push_decimal(n / 10, out);
        out.push(48 + (n % 10) as u8);
        proof {
            assert(out@ =~= old(out)@ + dec_digits(n as nat));
        }
    }
}

/// Builds the numbering prefix for line number `n`: six columns of
/// right-aligned digits, then two spaces.
pub fn number_prefix_bytes(n: u64) -> (r: Vec<u8>)
    ensures
        r@ == number_prefix(n as nat),
{
    let mut digits: Vec<u8> = Vec::new();
    push_decimal(n, &mut digits);
    let ghost d = dec_digits(n as nat);
    let mut out: Vec<u8> = Vec::new();
    if digits.len() < 6 {
        let pad: usize = 6 - digits.len();
        let mut p: usize = 0;
        while p < pad
            invariant
                p <= pad,
                out@ == spaces(p as nat),
            decreases pad - p,
        {
            out.push(32);
            proof {
                assert(out@ =~= spaces((p + 1) as nat));
            }
            p = p + 1;
        }
    }
    out.append(&mut digits);
    out.push(32);
    out.push(32);
    proof {
        assert(out@ =~= number_prefix(n as nat));
    }
    out
}

/// Builds the eight-space placeholder prefix for a blank line.
pub fn blank_prefix_bytes() -> (r: Vec<u8>)
    ensures
        r@ == blank_prefix(),
{
    let mut out: Vec<u8> = Vec::new();
    let mut p: usize = 0;
    while p < 8
        invariant
            p <= 8,
            out@ == spaces(p as nat),
        decreases 8 - p,
    {
        out.push(32);
        proof {
            assert(out@ =~= spaces((p + 1) as nat));
        }
        p = p + 1;
    }
    out
}

} // verus!
