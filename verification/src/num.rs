//! Decimal numbers as text: the value of a digit string, parsing with
//! overflow detection, and printing. Path parameters, query values and JSON
//! numbers all go through these.
use vstd::prelude::*;

verus! {

/// Whether a character is a decimal digit.
pub open spec fn is_digit(c: char) -> bool {
    48 <= c as u32 <= 57
}

/// The value of a decimal digit.
pub open spec fn digit_val(c: char) -> int {
    c as u32 - 48
}

/// Whether every character is a decimal digit.
pub open spec fn all_digits(s: Seq<char>) -> bool {
    forall|i: int| 0 <= i < s.len() ==> is_digit(#[trigger] s[i])
}

/// The value of a digit string, most significant digit first.
pub open spec fn dec_val(s: Seq<char>) -> int
    decreases s.len(),
{
    if s.len() == 0 {
        0
    } else {
        dec_val(s.drop_last()) * 10 + digit_val(s.last())
    }
}

/// A digit string's value is not negative.
pub proof fn lemma_dec_val_nonneg(s: Seq<char>)
    requires
        all_digits(s),
    ensures
        dec_val(s) >= 0,
    decreases s.len(),
{
    if s.len() > 0 {
        assert(all_digits(s.drop_last()));
        lemma_dec_val_nonneg(s.drop_last());
    }
}

/// Extending a digit string never shrinks its value.
pub proof fn lemma_dec_val_prefix_le(s: Seq<char>, i: int)
    requires
        all_digits(s),
        0 <= i <= s.len(),
    ensures
        dec_val(s.take(i)) <= dec_val(s),
    decreases s.len() - i,
{
    if i < s.len() {
        assert(all_digits(s.take(i + 1)));
        assert(s.take(i + 1).drop_last() =~= s.take(i));
        lemma_dec_val_nonneg(s.take(i));
        lemma_dec_val_prefix_le(s, i + 1);
    } else {
        assert(s.take(i) =~= s);
    }
}

/// Parse an unsigned decimal number. Answers the value exactly when the
/// string is one or more digits and the value fits; reports nothing exactly
/// when it is empty, holds a non-digit, or overflows.
pub fn parse_u64(s: &str) -> (r: Option<u64>)
    ensures
        match r {
            Some(v) => s@.len() > 0 && all_digits(s@) && v as int == dec_val(s@),
            None => s@.len() == 0 || !all_digits(s@) || dec_val(s@) > u64::MAX,
        },
{
    let len = s.unicode_len();
    if len == 0 {
        return None;
    }
    let mut acc: u64 = 0;
    proof {
        assert(s@.take(0) =~= Seq::<char>::empty());
    }
    for i in 0..len
        invariant
            len == s@.len(),
            all_digits(s@.take(i as int)),
            acc as int == dec_val(s@.take(i as int)),
    {
        let c = s.get_char(i);
        let d = c as u32;
        if d < 48 || d > 57 {
            proof {
                assert(!is_digit(s@[i as int]));
            }
            return None;
        }
        let d64 = (d - 48) as u64;
        if acc > (u64::MAX - d64) / 10 {
            proof {
                assert(all_digits(s@.take(i as int + 1)));
                assert(s@.take(i as int + 1).drop_last() =~= s@.take(i as int));
                assert(dec_val(s@.take(i as int + 1)) > u64::MAX) by (nonlinear_arith)
                    requires
                        dec_val(s@.take(i as int + 1)) == dec_val(s@.take(i as int)) * 10
                            + digit_val(s@[i as int]),
                        acc as int == dec_val(s@.take(i as int)),
                        digit_val(s@[i as int]) == d64 as int,
                        acc > (u64::MAX - d64) / 10,
                ;
                if all_digits(s@) {
                    lemma_dec_val_prefix_le(s@, i as int + 1);
                }
            }
            return None;
        }
        proof {
            assert(acc * 10 + d64 <= u64::MAX) by (nonlinear_arith)
                requires
                    acc <= (u64::MAX - d64) / 10,
                    d64 <= 9,
            ;
            assert(s@.take(i as int + 1).drop_last() =~= s@.take(i as int));
        }
        acc = acc * 10 + d64;
    }
    proof {
        assert(s@.take(len as int) =~= s@);
    }
    Some(acc)
}

/// Parse a boolean: exactly `true` or `false`.
pub fn parse_bool(s: &str) -> (r: Option<bool>)
    ensures
        match r {
            Some(b) => (b ==> s@ == "true"@) && (!b ==> s@ == "false"@),
            None => s@ != "true"@ && s@ != "false"@,
        },
{
    let owned = String::from_str(s);
    if owned.eq(&String::from_str("true")) {
        Some(true)
    } else if owned.eq(&String::from_str("false")) {
        Some(false)
    } else {
        None
    }
}

/// The digits of a number, most significant first.
pub open spec fn dec_digits(n: int) -> Seq<char>
    decreases n,
{
    if n < 10 {
        seq![digit_char(n)]
    } else {
        dec_digits(n / 10).push(digit_char(n % 10))
    }
}

/// The character for one digit.
pub open spec fn digit_char(d: int) -> char {
    if d == 0 {
        '0'
    } else if d == 1 {
        '1'
    } else if d == 2 {
        '2'
    } else if d == 3 {
        '3'
    } else if d == 4 {
        '4'
    } else if d == 5 {
        '5'
    } else if d == 6 {
        '6'
    } else if d == 7 {
        '7'
    } else if d == 8 {
        '8'
    } else {
        '9'
    }
}

/// The text of an integer: a minus sign for negative numbers, then digits.
pub open spec fn int_chars(n: int) -> Seq<char> {
    if n < 0 {
        seq!['-'] + dec_digits(-n)
    } else {
        dec_digits(n)
    }
}

/// One digit as text.
fn digit_str(d: u64) -> (r: &'static str)
    requires
        d < 10,
    ensures
        r@ =~= seq![digit_char(d as int)],
{
    proof {
        reveal_strlit("0");
        reveal_strlit("1");
        reveal_strlit("2");
        reveal_strlit("3");
        reveal_strlit("4");
        reveal_strlit("5");
        reveal_strlit("6");
        reveal_strlit("7");
        reveal_strlit("8");
        reveal_strlit("9");
    }
    match d {
        0 => "0",
        1 => "1",
        2 => "2",
        3 => "3",
        4 => "4",
        5 => "5",
        6 => "6",
        7 => "7",
        8 => "8",
        _ => "9",
    }
}

/// Append a number's digits to a string.
fn push_digits(mag: u64, out: &mut String)
    ensures
        final(out)@ == old(out)@ + dec_digits(mag as int),
    decreases mag,
{
    if mag < 10 {
        out.append(digit_str(mag));
        proof {
            assert(out@ =~= old(out)@ + dec_digits(mag as int));
        }
    } else {
        push_digits(mag / 10, out);
        out.append(digit_str(mag % 10));
        proof {
            assert(out@ =~= old(out)@ + dec_digits(mag as int));
        }
    }
}

/// Print an integer in decimal.
pub fn int_to_string(n: i64) -> (r: String)
    ensures
        r@ == int_chars(n as int),
{
    let mut out = String::new();
    if n < 0 {
        proof {
            reveal_strlit("-");
        }
        out.append("-");
        let m1: i64 = -(n + 1);
        let mag: u64 = (m1 as u64) + 1;
        proof {
            assert(mag as int == -(n as int));
        }
        push_digits(mag, &mut out);
        proof {
            assert(out@ =~= int_chars(n as int));
        }
    } else {
        push_digits(n as u64, &mut out);
        proof {
            assert(out@ =~= int_chars(n as int));
        }
    }
    out
}

/// Printing and reading a number round-trip: the digits of `n` read back as
/// the value `n`, and they are digits.
pub proof fn lemma_dec_digits_val(n: int)
    requires
        n >= 0,
    ensures
        dec_val(dec_digits(n)) == n,
        all_digits(dec_digits(n)),
        dec_digits(n).len() >= 1,
    decreases n,
{
    if n < 10 {
        assert(dec_digits(n) =~= seq![digit_char(n)]);
        assert(dec_val(dec_digits(n)) == dec_val(Seq::<char>::empty()) * 10 + digit_val(
            digit_char(n),
        )) by {
            assert(dec_digits(n).drop_last() =~= Seq::<char>::empty());
        }
    } else {
        lemma_dec_digits_val(n / 10);
        let ds = dec_digits(n / 10).push(digit_char(n % 10));
        assert(ds.drop_last() =~= dec_digits(n / 10));
        assert(dec_val(ds) == (n / 10) * 10 + (n % 10));
        assert((n / 10) * 10 + (n % 10) == n) by (nonlinear_arith)
            requires
                n >= 10,
        ;
        assert(all_digits(ds)) by {
            assert(forall|i: int|
                0 <= i < ds.len() - 1 ==> #[trigger] ds[i] == dec_digits(n / 10)[i]);
            assert(is_digit(ds[ds.len() - 1]));
        }
    }
}

} // verus!
