//! Textual rendering of integer constants: the debug form a caller
//! sees when printing a wrapper. It shows the type, the signed decimal
//! value, and the overflow attribute the producing fold recorded, for
//! example `i32 13 nsw`. Rendering is one-directional: there is no
//! parsing counterpart.

use vstd::prelude::*;
use vstd::string::StringExecFns;
use crate::arith::{width_ok, fits, signed_value, signed_parts};
use crate::handle::OverflowTag;

verus! {

/// The decimal digit character for a value below ten.
pub open spec fn digit_char(d: nat) -> char {
    if d == 0 {
        '0'
    } else if d == 1 {
        '1'
    } else if d == 2 {
        '2'
    } else if d == 3 {
        '3'
    } else if d == 4 {
        '4'
    } else if d == 5 {
        '5'
    } else if d == 6 {
        '6'
    } else if d == 7 {
        '7'
    } else if d == 8 {
        '8'
    } else {
        '9'
    }
}

/// The decimal numeral of a natural number, most significant digit first.
pub open spec fn decimal_seq(n: nat) -> Seq<char>
    decreases n,
{
    if n < 10 {
        seq![digit_char(n)]
    } else {
        decimal_seq(n / 10).push(digit_char(n % 10))
    }
}

/// The decimal numeral of an integer, with a minus sign when negative.
pub open spec fn signed_decimal_seq(v: int) -> Seq<char> {
    if v < 0 {
        seq!['-'] + decimal_seq((-v) as nat)
    } else {
        decimal_seq(v as nat)
    }
}

/// The printed suffix of an overflow attribute.
pub open spec fn tag_suffix(tag: OverflowTag) -> Seq<char> {
    match tag {
        OverflowTag::Plain => Seq::<char>::empty(),
        OverflowTag::NoSignedWrap => " nsw"@,
        OverflowTag::NoUnsignedWrap => " nuw"@,
    }
}

/// The full printed form of a constant of width `w` with pattern
/// `bits`: its type, its signed value, and its recorded attribute.
pub open spec fn rendered(w: u32, bits: u64, tag: OverflowTag) -> Seq<char> {
    seq!['i'] + decimal_seq(w as nat) + seq![' '] + signed_decimal_seq(signed_value(w, bits))
        + tag_suffix(tag)
}

/// The one-character string of a decimal digit.
fn digit_str(d: u64) -> (s: &'static str)
    requires
        d < 10,
    ensures
        s@ == seq![digit_char(d as nat)],
{
    if d == 0 {
        proof {
            reveal_strlit("0");
            assert("0"@ =~= seq![digit_char(0)]);
        }
        "0"
    } else if d == 1 {
        proof {
            reveal_strlit("1");
            assert("1"@ =~= seq![digit_char(1)]);
        }
        "1"
    } else if d == 2 {
        proof {
            reveal_strlit("2");
            assert("2"@ =~= seq![digit_char(2)]);
        }
        "2"
    } else if d == 3 {
        proof {
            reveal_strlit("3");
            assert("3"@ =~= seq![digit_char(3)]);
        }
        "3"
    } else if d == 4 {
        proof {
            reveal_strlit("4");
            assert("4"@ =~= seq![digit_char(4)]);
        }
        "4"
    } else if d == 5 {
        proof {
            reveal_strlit("5");
            assert("5"@ =~= seq![digit_char(5)]);
        }
        "5"
    } else if d == 6 {
        proof {
            reveal_strlit("6");
            assert("6"@ =~= seq![digit_char(6)]);
        }
        "6"
    } else if d == 7 {
        proof {
            reveal_strlit("7");
            assert("7"@ =~= seq![digit_char(7)]);
        }
        "7"
    } else if d == 8 {
        proof {
            reveal_strlit("8");
            assert("8"@ =~= seq![digit_char(8)]);
        }
        "8"
    } else {
        proof {
            reveal_strlit("9");
            assert("9"@ =~= seq![digit_char(9)]);
        }
        "9"
    }
}

/// Append the decimal numeral of `n` to the buffer.
fn push_decimal(out: &mut String, n: u64)
    ensures
        final(out)@ == old(out)@ + decimal_seq(n as nat),
    decreases n,
{
    if n >= 10 {
        push_decimal(out, n / 10);
        let d = digit_str(n % 10);
        out.append(d);
        proof {
            assert(out@ =~= old(out)@ + decimal_seq(n as nat));
        }
    } else {
        let d = digit_str(n);
        out.append(d);
        proof {
            assert(out@ =~= old(out)@ + decimal_seq(n as nat));
        }
    }
}

/// Render a constant's printed form.
pub(crate) fn render(w: u32, bits: u64, tag: OverflowTag) -> (s: String)
    requires
        width_ok(w),
        fits(w, bits),
    ensures
        s@ == rendered(w, bits, tag),
{
    let mut out = String::new();
    out.append("i");
    push_decimal(&mut out, w as u64);
    out.append(" ");
    let (neg, mag) = signed_parts(w, bits);
    if neg {
        out.append("-");
    }
    push_decimal(&mut out, mag);
    match tag {
        OverflowTag::Plain => {},
        OverflowTag::NoSignedWrap => out.append(" nsw"),
        OverflowTag::NoUnsignedWrap => out.append(" nuw"),
    }
    proof {
        reveal_strlit("i");
        reveal_strlit(" ");
        reveal_strlit("-");
        assert("i"@ =~= seq!['i']);
        assert(" "@ =~= seq![' ']);
        assert("-"@ =~= seq!['-']);
        assert(out@ =~= rendered(w, bits, tag));
    }
    out
}

} // verus!
