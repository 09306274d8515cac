//! Decimal rendering and reading of port numbers.

use vstd::prelude::*;

verus! {

/// The character for a single decimal digit value.
pub open spec fn spec_digit_char(d: int) -> char
    recommends
        0 <= d < 10,
{
    if d == 0 {
        '0'
    } else if d == 1 {
        '1'
    } else if d == 2 {
        '2'
    } else if d == 3 {
        '3'
    } else if d == 4 {
        '4'
    } else if d == 5 {
        '5'
    } else if d == 6 {
        '6'
    } else if d == 7 {
        '7'
    } else if d == 8 {
        '8'
    } else {
        '9'
    }
}

/// The usual decimal rendering of a non-negative integer: no sign, no
/// leading zeros except for the number zero itself.
pub open spec fn spec_dec_digits(n: int) -> Seq<char>
    recommends
        n >= 0,
    decreases n,
{
    if n < 10 {
        seq![spec_digit_char(n)]
    } else {
        spec_dec_digits(n / 10) + seq![spec_digit_char(n % 10)]
    }
}

/// Whether a character is a decimal digit.
pub open spec fn spec_is_digit(c: char) -> bool {
    48 <= c as u32 && c as u32 <= 57
}

/// The numeric value of a decimal digit character.
pub open spec fn spec_digit_value(c: char) -> int
    recommends
        spec_is_digit(c),
{
    c as u32 - 48
}

/// The non-negative integer denoted by a sequence of decimal digit
/// characters, most significant first; the empty sequence denotes zero.
pub open spec fn spec_dec_value(s: Seq<char>) -> int
    decreases s.len(),
{
    if s.len() == 0 {
        0
    } else {
        spec_dec_value(s.drop_last()) * 10 + spec_digit_value(s.last())
    }
}

/// Whether every character of `s` is a decimal digit.
pub open spec fn all_digits(s: Seq<char>) -> bool {
    forall|i: int| 0 <= i < s.len() ==> spec_is_digit(#[trigger] s[i])
}

/// A digit string denotes a non-negative number.
pub proof fn lemma_dec_value_nonneg(s: Seq<char>)
    requires
        all_digits(s),
    ensures
        spec_dec_value(s) >= 0,
    decreases s.len(),
{
    if s.len() > 0 {
        assert(all_digits(s.drop_last()));
        lemma_dec_value_nonneg(s.drop_last());
        assert(spec_is_digit(s.last()));
    }
}

/// Extending a digit string on the right never decreases its value.
pub proof fn lemma_dec_value_prefix_le(s: Seq<char>, i: int)
    requires
        all_digits(s),
        0 <= i <= s.len(),
    ensures
        spec_dec_value(s.subrange(0, i)) <= spec_dec_value(s),
    decreases s.len() - i,
{
    if i < s.len() {
        let t = s.subrange(0, i + 1);
        assert(all_digits(t));
        assert(t.drop_last() =~= s.subrange(0, i));
        lemma_dec_value_nonneg(s.subrange(0, i));
        assert(spec_is_digit(t.last()));
        assert(spec_dec_value(t) == spec_dec_value(s.subrange(0, i)) * 10 + spec_digit_value(
            t.last(),
        ));
        lemma_dec_value_prefix_le(s, i + 1);
    } else {
        assert(s.subrange(0, i) =~= s);
    }
}

/// The first character of a decimal rendering is a digit, so a rendered
/// number never collides with a token that starts with a dash.
pub proof fn lemma_dec_digits_start_digit(n: int)
    requires
        n >= 0,
    ensures
        spec_dec_digits(n).len() >= 1,
        spec_is_digit(spec_dec_digits(n)[0]),
    decreases n,
{
    if n >= 10 {
        lemma_dec_digits_start_digit(n / 10);
    }
}

/// Law: the decimal rendering of a number is all digits and reads back to
/// the number it renders, so a port survives a render-and-resolve round
/// trip unchanged.
pub proof fn lemma_decimal_round_trip(n: int)
    requires
        n >= 0,
    ensures
        all_digits(spec_dec_digits(n)),
        spec_dec_value(spec_dec_digits(n)) == n,
    decreases n,
{
    if n < 10 {
        let s = seq![spec_digit_char(n)];
        assert(s.drop_last() =~= Seq::<char>::empty());
        assert(spec_dec_value(s.drop_last()) == 0);
        assert(spec_dec_value(s) == spec_digit_value(spec_digit_char(n)));
    } else {
        lemma_decimal_round_trip(n / 10);
        let s = spec_dec_digits(n);
        let head = spec_dec_digits(n / 10);
        assert(s == head + seq![spec_digit_char(n % 10)]);
        assert(s.drop_last() =~= head);
        assert(s.last() == spec_digit_char(n % 10));
        assert(spec_digit_value(spec_digit_char(n % 10)) == n % 10);
        assert(forall|i: int| 0 <= i < s.len() ==> spec_is_digit(#[trigger] s[i]));
    }
}

/// Appends one decimal digit character to `s`.
fn push_digit_char(s: &mut String, d: u16)
    requires
        d < 10,
    ensures
        final(s)@ == old(s)@ + seq![spec_digit_char(d as int)],
{
    let piece: &str = if d == 0 {
        "0"
    } else if d == 1 {
        "1"
    } else if d == 2 {
        "2"
    } else if d == 3 {
        "3"
    } else if d == 4 {
        "4"
    } else if d == 5 {
        "5"
    } else if d == 6 {
        "6"
    } else if d == 7 {
        "7"
    } else if d == 8 {
        "8"
    } else {
        "9"
    };
    proof {
        reveal_strlit("0");
        reveal_strlit("1");
        reveal_strlit("2");
        reveal_strlit("3");
        reveal_strlit("4");
        reveal_strlit("5");
        reveal_strlit("6");
        reveal_strlit("7");
        reveal_strlit("8");
        reveal_strlit("9");
        assert(piece@ =~= seq![spec_digit_char(d as int)]);
    }
    s.append(piece);
}

/// Appends the decimal rendering of `n` to `s`.
fn push_decimal(s: &mut String, n: u16)
    ensures
        final(s)@ == old(s)@ + spec_dec_digits(n as int),
    decreases n,
{
    if n >= 10 {
        push_decimal(s, n / 10);
    }
    push_digit_char(s, n % 10);
    proof {
        if n >= 10 {
            assert(final(s)@ =~= old(s)@ + (spec_dec_digits(n as int / 10) + seq![
                spec_digit_char(n as int % 10),
            ]));
        }
    }
}

/// The decimal rendering of a port number, as `u16::to_string` produces it.
pub fn u16_to_decimal(n: u16) -> (r: String)
    ensures
        r@ == spec_dec_digits(n as int),
{
    let mut s = String::new();
    push_decimal(&mut s, n);
    proof {
        assert(s@ =~= spec_dec_digits(n as int));
    }
    s
}

} // verus!
