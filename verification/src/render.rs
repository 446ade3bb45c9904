//! Rendering numbers and flags as the output snapshot's text.
//!
//! Amounts are fixed-point ten-thousandths; they print as a decimal
//! numeral with at most four fractional digits and no trailing zeros,
//! so `15000` prints as `1.5` and `50000` as `5`.

use vstd::prelude::*;

verus! {

/// The digit character for a value below ten.
pub open spec fn char_of_digit(d: nat) -> char {
    if d == 0 {
        '0'
    } else if d == 1 {
        '1'
    } else if d == 2 {
        '2'
    } else if d == 3 {
        '3'
    } else if d == 4 {
        '4'
    } else if d == 5 {
        '5'
    } else if d == 6 {
        '6'
    } else if d == 7 {
        '7'
    } else if d == 8 {
        '8'
    } else {
        '9'
    }
}

/// The decimal numeral of a natural number, without leading zeros
/// (a single `0` for zero).
pub open spec fn dec_seq(n: nat) -> Seq<char>
    decreases n,
{
    if n < 10 {
        seq![char_of_digit(n)]
    } else {
        dec_seq(n / 10).push(char_of_digit(n % 10))
    }
}

/// The last `width` decimal digits of `n`, kept at exactly that width
/// with leading zeros.
pub open spec fn pad_seq(n: nat, width: nat) -> Seq<char>
    decreases width,
{
    if width == 0 {
        Seq::empty()
    } else {
        pad_seq(n / 10, (width - 1) as nat).push(char_of_digit(n % 10))
    }
}

/// The fractional digits of `n` at the given width, with trailing
/// zeros removed.
pub open spec fn frac_seq(n: nat, width: nat) -> Seq<char>
    decreases width,
{
    if width > 0 && n % 10 == 0 {
        frac_seq(n / 10, (width - 1) as nat)
    } else {
        pad_seq(n, width)
    }
}

/// How an amount of ten-thousandths prints: the whole part, and the
/// fractional digits only when they are not all zero.
pub open spec fn amount_seq(units: nat) -> Seq<char> {
    if units % 10000 == 0 {
        dec_seq(units / 10000)
    } else {
        dec_seq(units / 10000) + seq!['.'] + frac_seq(units % 10000, 4)
    }
}

/// How a flag prints.
pub open spec fn bool_seq(b: bool) -> Seq<char> {
    if b {
        "true"@
    } else {
        "false"@
    }
}

/// The single-character numeral of one digit.
fn digit_str(d: u64) -> (r: &'static str)
    requires
        d < 10,
    ensures
        r@ == seq![char_of_digit(d as nat)],
{
    match d {
        0 => {
            proof {
                reveal_strlit("0");
            }
            "0"
        },
        1 => {
            proof {
                reveal_strlit("1");
            }
            "1"
        },
        2 => {
            proof {
                reveal_strlit("2");
            }
            "2"
        },
        3 => {
            proof {
                reveal_strlit("3");
            }
            "3"
        },
        4 => {
            proof {
                reveal_strlit("4");
            }
            "4"
        },
        5 => {
            proof {
                reveal_strlit("5");
            }
            "5"
        },
        6 => {
            proof {
                reveal_strlit("6");
            }
            "6"
        },
        7 => {
            proof {
                reveal_strlit("7");
            }
            "7"
        },
        8 => {
            proof {
                reveal_strlit("8");
            }
            "8"
        },
        _ => {
            proof {
                reveal_strlit("9");
            }
            "9"
        },
    }
}

/// Prints a natural number as its decimal numeral.
pub fn u64_string(n: u64) -> (r: String)
    ensures
        r@ == dec_seq(n as nat),
    decreases n,
{
    if n < 10 {
        digit_str(n).to_owned()
    } else {
        let mut s = u64_string(n / 10);
        s.append(digit_str(n % 10));
        proof {
            assert(dec_seq((n / 10) as nat).push(char_of_digit((n % 10) as nat)) =~= dec_seq(
                (n / 10) as nat,
            ) + seq![char_of_digit((n % 10) as nat)]);
        }
        s
    }
}

/// Prints the last `width` digits of `n`, zero-padded to that width.
fn pad_string(n: u64, width: u64) -> (r: String)
    ensures
        r@ == pad_seq(n as nat, width as nat),
    decreases width,
{
    if width == 0 {
        String::new()
    } else {
        let mut s = pad_string(n / 10, width - 1);
        s.append(digit_str(n % 10));
        proof {
            assert(pad_seq((n / 10) as nat, (width - 1) as nat).push(
                char_of_digit((n % 10) as nat),
            ) =~= pad_seq((n / 10) as nat, (width - 1) as nat) + seq![char_of_digit(
                (n % 10) as nat,
            )]);
        }
        s
    }
}

/// Prints `width` fractional digits of `n` with trailing zeros removed.
fn frac_string(n: u64, width: u64) -> (r: String)
    ensures
        r@ == frac_seq(n as nat, width as nat),
    decreases width,
{
    if width > 0 && n % 10 == 0 {
        frac_string(n / 10, width - 1)
    } else {
        pad_string(n, width)
    }
}

/// Prints an amount of ten-thousandths as a decimal, with at most four
/// fractional digits and no trailing zeros.
pub fn amount_string(units: u64) -> (r: String)
    ensures
        r@ == amount_seq(units as nat),
{
    let whole = units / 10000;
    let frac = units % 10000;
    if frac == 0 {
        u64_string(whole)
    } else {
        let mut s = u64_string(whole);
        s.append(".");
        let f = frac_string(frac, 4);
        s.append(f.as_str());
        proof {
            reveal_strlit(".");
            assert(s@ =~= amount_seq(units as nat));
        }
        s
    }
}

/// Prints a flag as `true` or `false`.
pub fn bool_string(b: bool) -> (r: String)
    ensures
        r@ == bool_seq(b),
{
    if b {
        "true".to_owned()
    } else {
        "false".to_owned()
    }
}

} // verus!
