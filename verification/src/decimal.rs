//! Decimal rendering of numbers, with optional zero padding.

use vstd::prelude::*;

verus! {

/// The character of one decimal digit.
pub open spec fn spec_digit_char(d: int) -> char {
    if d == 0 {
        '0'
    } else if d == 1 {
        '1'
    } else if d == 2 {
        '2'
    } else if d == 3 {
        '3'
    } else if d == 4 {
        '4'
    } else if d == 5 {
        '5'
    } else if d == 6 {
        '6'
    } else if d == 7 {
        '7'
    } else if d == 8 {
        '8'
    } else {
        '9'
    }
}

/// The decimal digit string of `n`, most significant digit first.
pub open spec fn spec_decimal(n: nat) -> Seq<char>
    decreases n,
{
    if n < 10 {
        seq![spec_digit_char(n as int)]
    } else {
        spec_decimal(n / 10).push(spec_digit_char((n % 10) as int))
    }
}

/// The decimal digit string of `n`, left-padded with zeros to at least
/// `width` characters.
pub open spec fn spec_zero_padded(n: nat, width: nat) -> Seq<char> {
    if spec_decimal(n).len() >= width {
        spec_decimal(n)
    } else {
        Seq::new((width - spec_decimal(n).len()) as nat, |i: int| '0') + spec_decimal(n)
    }
}

/// The decimal digits of `n` as values, least significant first.
spec fn spec_rev_digits(n: nat) -> Seq<u8>
    decreases n,
{
    if n < 10 {
        seq![n as u8]
    } else {
        seq![(n % 10) as u8] + spec_rev_digits(n / 10)
    }
}

/// The digit string is the reversed digit-value sequence, rendered as
/// characters.
proof fn lemma_decimal_rev(n: nat)
    ensures
        spec_decimal(n).len() == spec_rev_digits(n).len(),
        forall|i: int|
            0 <= i < spec_decimal(n).len() ==> spec_decimal(n)[i] == spec_digit_char(
                spec_rev_digits(n)[spec_decimal(n).len() - 1 - i] as int,
            ),
        forall|i: int| 0 <= i < spec_rev_digits(n).len() ==> spec_rev_digits(n)[i] < 10,
    decreases n,
{
    if n >= 10 {
        lemma_decimal_rev(n / 10);
    }
}

/// Appends the single digit `d` to the string.
fn append_digit(out: &mut String, d: u8)
    requires
        d < 10,
    ensures
        final(out)@ == old(out)@.push(spec_digit_char(d as int)),
{
    match d {
        0 => {
            out.append("0");
            proof {
                reveal_strlit("0");
                assert(out@ =~= old(out)@.push('0'));
            }
        },
        1 => {
            out.append("1");
            proof {
                reveal_strlit("1");
                assert(out@ =~= old(out)@.push('1'));
            }
        },
        2 => {
            out.append("2");
            proof {
                reveal_strlit("2");
                assert(out@ =~= old(out)@.push('2'));
            }
        },
        3 => {
            out.append("3");
            proof {
                reveal_strlit("3");
                assert(out@ =~= old(out)@.push('3'));
            }
        },
        4 => {
            out.append("4");
            proof {
                reveal_strlit("4");
                assert(out@ =~= old(out)@.push('4'));
            }
        },
        5 => {
            out.append("5");
            proof {
                reveal_strlit("5");
                assert(out@ =~= old(out)@.push('5'));
            }
        },
        6 => {
            out.append("6");
            proof {
                reveal_strlit("6");
                assert(out@ =~= old(out)@.push('6'));
            }
        },
        7 => {
            out.append("7");
            proof {
                reveal_strlit("7");
                assert(out@ =~= old(out)@.push('7'));
            }
        },
        8 => {
            out.append("8");
            proof {
                reveal_strlit("8");
                assert(out@ =~= old(out)@.push('8'));
            }
        },
        _ => {
            out.append("9");
            proof {
                reveal_strlit("9");
                assert(out@ =~= old(out)@.push('9'));
            }
        },
    }
}

/// Appends the decimal rendering of `n`, left-padded with zeros to at
/// least `width` characters.
#[verifier::loop_isolation(false)]
pub fn append_padded(out: &mut String, n: u16, width: usize)
    ensures
        final(out)@ == old(out)@ + spec_zero_padded(n as nat, width as nat),
{
    let ghost base = out@;
    let mut digits: Vec<u8> = Vec::new();
    let mut m: u16 = n;
    while m >= 10
        invariant
            spec_rev_digits(n as nat) =~= digits@ + spec_rev_digits(m as nat),
            forall|j: int| 0 <= j < digits@.len() ==> digits@[j] < 10,
        decreases m,
    {
        let d: u8 = (m % 10) as u8;
        proof {
            assert(spec_rev_digits(m as nat) == seq![d] + spec_rev_digits((m / 10) as nat));
            assert(digits@.push(d) + spec_rev_digits((m / 10) as nat) =~= digits@
                + spec_rev_digits(m as nat));
        }
        digits.push(d);
        m = m / 10;
    }
    proof {
        assert(spec_rev_digits(m as nat) =~= seq![m as u8]);
        assert(digits@.push(m as u8) =~= digits@ + spec_rev_digits(m as nat));
    }
    digits.push(m as u8);
    proof {
        assert(digits@ =~= spec_rev_digits(n as nat));
        lemma_decimal_rev(n as nat);
    }
    let dlen: usize = digits.len();
    let mut pad: usize = dlen;
    proof {
        assert(out@ =~= base + Seq::new(0, |_i: int| '0'));
    }
    while pad < width
        invariant
            dlen <= pad,
            pad <= width || pad == dlen,
            out@ == base + Seq::new((pad - dlen) as nat, |_i: int| '0'),
        decreases width - pad,
    {
        out.append("0");
        proof {
            reveal_strlit("0");
            assert(out@ =~= base + Seq::new((pad + 1 - dlen) as nat, |_i: int| '0'));
        }
        pad = pad + 1;
    }
    let ghost padded = out@;
    proof {
        assert(out@ =~= padded + spec_decimal(n as nat).take(0));
    }
    let mut i: usize = 0;
    while i < dlen
        invariant
            i <= dlen,
            out@ == padded + spec_decimal(n as nat).take(i as int),
        decreases dlen - i,
    {
        let d = digits[dlen - 1 - i];
        append_digit(out, d);
        proof {
            assert(spec_decimal(n as nat)[i as int] == spec_digit_char(d as int));
            assert(padded + spec_decimal(n as nat).take(i as int).push(
                spec_decimal(n as nat)[i as int],
            ) =~= padded + spec_decimal(n as nat).take(i + 1));
        }
        i = i + 1;
    }
    proof {
        assert(spec_decimal(n as nat).take(dlen as int) =~= spec_decimal(n as nat));
        if width > dlen {
            assert(padded == base + Seq::new((width - dlen) as nat, |_i: int| '0'));
            assert(out@ =~= base + spec_zero_padded(n as nat, width as nat));
        } else {
            assert(padded =~= base);
            assert(out@ =~= base + spec_zero_padded(n as nat, width as nat));
        }
    }
}

} // verus!
