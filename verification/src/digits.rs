//! Decimal rendering of counters and sizes into escape-sequence payloads.

use vstd::prelude::*;
use vstd::string::StringExecFns;

verus! {

/// The character of one decimal digit.
pub open spec fn digit_char(d: int) -> char {
    if d == 0 {
        '0'
    } else if d == 1 {
        '1'
    } else if d == 2 {
        '2'
    } else if d == 3 {
        '3'
    } else if d == 4 {
        '4'
    } else if d == 5 {
        '5'
    } else if d == 6 {
        '6'
    } else if d == 7 {
        '7'
    } else if d == 8 {
        '8'
    } else {
        '9'
    }
}

/// The decimal digits of `n`, most significant first, no sign and no leading
/// zeros (`0` itself is one digit).
pub open spec fn dec_digits(n: int) -> Seq<char>
    decreases n,
{
    if n < 10 {
        seq![digit_char(n)]
    } else {
        dec_digits(n / 10).push(digit_char(n % 10))
    }
}

/// The string form of one digit.
fn digit_str(d: u64) -> (r: &'static str)
    requires
        d < 10,
    ensures
        r@ == seq![digit_char(d as int)],
{
    let r = if d == 0 {
        "0"
    } else if d == 1 {
        "1"
    } else if d == 2 {
        "2"
    } else if d == 3 {
        "3"
    } else if d == 4 {
        "4"
    } else if d == 5 {
        "5"
    } else if d == 6 {
        "6"
    } else if d == 7 {
        "7"
    } else if d == 8 {
        "8"
    } else {
        "9"
    };
    proof {
        reveal_strlit("0");
        reveal_strlit("1");
        reveal_strlit("2");
        reveal_strlit("3");
        reveal_strlit("4");
        reveal_strlit("5");
        reveal_strlit("6");
        reveal_strlit("7");
        reveal_strlit("8");
        reveal_strlit("9");
        assert(r@ =~= seq![digit_char(d as int)]);
    }
    r
}

/// The digit characters of `digs` read back to front.
pub open spec fn rev_chars(digs: Seq<u64>) -> Seq<char> {
    Seq::new(digs.len(), |i: int| digit_char(digs[digs.len() - 1 - i] as int))
}

/// Append the decimal form of `n` to `s`.
pub fn append_dec(s: &mut String, n: u64) -> (nothing: ())
    ensures
        final(s)@ == old(s)@ + dec_digits(n as int),
{
    let mut digs: Vec<u64> = Vec::new();
    let mut m: u64 = n;
    loop
        invariant_except_break
            digs@.len() == 0 ==> m == n,
            digs@.len() > 0 ==> m > 0 && dec_digits(n as int) == dec_digits(m as int) + rev_chars(
                digs@,
            ),
            forall|k: int| 0 <= k < digs@.len() ==> #[trigger] digs@[k] < 10,
        ensures
            dec_digits(n as int) == rev_chars(digs@),
            forall|k: int| 0 <= k < digs@.len() ==> #[trigger] digs@[k] < 10,
        decreases m,
    {
        let d: u64 = m % 10;
        let m2: u64 = m / 10;
        let ghost old_digs = digs@;
        let ghost old_m = m;
        digs.push(d);
        m = m2;
        proof {
            if old_m >= 10 {
                assert(dec_digits(old_m as int) == dec_digits(old_m as int / 10).push(
                    digit_char(old_m as int % 10),
                ));
            }
            if old_digs.len() == 0 {
                if old_m < 10 {
                    assert(rev_chars(digs@) =~= dec_digits(old_m as int));
                } else {
                    assert(dec_digits(m as int) + rev_chars(digs@) =~= dec_digits(old_m as int));
                }
            } else {
                if old_m < 10 {
                    assert(rev_chars(digs@) =~= dec_digits(old_m as int) + rev_chars(old_digs));
                    assert(dec_digits(n as int) == rev_chars(digs@));
                } else {
                    assert(dec_digits(m as int) + rev_chars(digs@) =~= dec_digits(old_m as int)
                        + rev_chars(old_digs));
                }
            }
        }
        if m == 0 {
            break;
        }
    }

    let len = digs.len();
    let mut j: usize = 0;
    proof {
        assert(old(s)@ + rev_chars(digs@).take(0) =~= old(s)@);
    }
    while j < len
        invariant
            0 <= j <= len == digs@.len(),
            forall|k: int| 0 <= k < digs@.len() ==> #[trigger] digs@[k] < 10,
            s@ == old(s)@ + rev_chars(digs@).take(j as int),
        decreases len - j,
    {
        let piece = digit_str(digs[len - 1 - j]);
        s.append(piece);
        proof {
            assert(rev_chars(digs@)[j as int] == digit_char(digs@[digs@.len() - 1 - j] as int));
            assert(s@ =~= old(s)@ + rev_chars(digs@).take(j as int + 1));
        }
        j = j + 1;
    }
    proof {
        assert(rev_chars(digs@).take(digs@.len() as int) =~= rev_chars(digs@));
        assert(s@ =~= old(s)@ + dec_digits(n as int));
    }
}

} // verus!
