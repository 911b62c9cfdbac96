//! What holds of texts and integers, whatever they are.

use vstd::prelude::*;

use crate::text::{
    decimal_nat, digits_value, i64_to_text, is_digit, is_digits, is_white_space,
    lemma_decimal_nat_reads_back, parse_i64, trim, trim_end, trim_start, u64_to_text, white_space,
};

verus! {

/// The positional value of a run of digits.
proof fn lemma_digits_value_is_positional(s: Seq<char>)
    requires
        forall|i: int| 0 <= i < s.len() ==> '0' <= #[trigger] s[i] <= '9',
    ensures
        s.fold_left(0int, |value: int, c: char| value * 10 + (c as int - 48)) == digits_value(s),
    decreases s.len(),
{
    if s.len() > 0 {
        lemma_digits_value_is_positional(s.drop_last());
        assert('0' <= s[s.len() - 1] <= '9');
    }
}

/// The decimal text of a natural number is a run of digits without a leading zero.
proof fn lemma_decimal_nat_shape(n: nat)
    ensures
        is_digits(decimal_nat(n)),
        digits_value(decimal_nat(n)) == n,
        n > 0 ==> decimal_nat(n)[0] != '0',
        n < 10 ==> decimal_nat(n).len() == 1,
    decreases n,
{
    lemma_decimal_nat_reads_back(n);
    if n >= 10 {
        lemma_decimal_nat_shape(n / 10);
        assert(decimal_nat(n)[0] == decimal_nat(n / 10)[0]);
    }
}

/// An unsigned integer is written as digits whose places add up to it, the first of them no zero
/// unless it is the only one.
pub proof fn law_unsigned_text_is_positional(n: u64, text: String)
    requires
        call_ensures(u64_to_text, (n,), text),
    ensures
        text@.len() > 0,
        forall|i: int| 0 <= i < text@.len() ==> '0' <= #[trigger] text@[i] <= '9',
        text@.len() > 1 ==> text@[0] != '0',
        text@.fold_left(0int, |value: int, c: char| value * 10 + (c as int - 48)) == n,
{
    lemma_decimal_nat_shape(n as nat);
    assert forall|i: int| 0 <= i < text@.len() implies '0' <= #[trigger] text@[i] <= '9' by {
        assert(is_digit(text@[i]));
    }
    lemma_digits_value_is_positional(text@);
}

/// A signed integer is written as digits whose places add up to its magnitude, the first of them no
/// zero unless it is the only one, behind a minus sign where the integer is negative.
pub proof fn law_signed_text_is_positional(n: i64, text: String)
    requires
        call_ensures(i64_to_text, (n,), text),
    ensures
        text@.len() > 0,
        n < 0 <==> text@[0] == '-',
        n < 0 ==> text@.len() > 1 && text@[1] != '0',
        n >= 0 && text@.len() > 1 ==> text@[0] != '0',
        forall|i: int|
            0 <= i < text@.len() && !(n < 0 && i == 0) ==> '0' <= #[trigger] text@[i] <= '9',
        n >= 0 ==> text@.fold_left(0int, |value: int, c: char| value * 10 + (c as int - 48)) == n,
        n < 0 ==> text@.skip(1).fold_left(
            0int,
            |value: int, c: char| value * 10 + (c as int - 48),
        ) == -n,
{
    if n < 0 {
        let digits = decimal_nat((-n) as nat);
        lemma_decimal_nat_shape((-n) as nat);
        assert(text@.skip(1) == digits);
        assert forall|i: int| 1 <= i < text@.len() implies '0' <= #[trigger] text@[i] <= '9' by {
            assert(is_digit(digits[i - 1]));
        }
        assert forall|i: int| 0 <= i < digits.len() implies '0' <= #[trigger] digits[i] <= '9' by {
            assert(is_digit(digits[i]));
        }
        lemma_digits_value_is_positional(digits);
        assert(text@[1] == digits[0]);
    } else {
        lemma_decimal_nat_shape(n as nat);
        assert forall|i: int| 0 <= i < text@.len() implies '0' <= #[trigger] text@[i] <= '9' by {
            assert(is_digit(text@[i]));
        }
        assert('0' <= text@[0] <= '9');
        lemma_digits_value_is_positional(text@);
    }
}

/// A text is read as an integer if and only if it is an optional sign and digits, at least one, and
/// an `i64` can hold what their places add up to; and that is what it is read as.
pub proof fn law_integer_is_what_its_places_add_up_to(
    s: &str,
    r: Option<i64>,
    digits: Seq<char>,
    places: int,
)
    requires
        call_ensures(parse_i64, (s,), r),
        s@ == digits && !(s@.len() > 0 && (s@[0] == '-' || s@[0] == '+')) || s@ == seq!['-']
            + digits
            || s@ == seq!['+'] + digits,
        places == digits.fold_left(0int, |value: int, c: char| value * 10 + (c as int - 48)),
    ensures
        r is Some ==> digits.len() > 0,
        r is Some ==> forall|i: int| 0 <= i < digits.len() ==> '0' <= #[trigger] digits[i] <= '9',
        r matches Some(n) ==> n == if s@[0] == '-' {
            -places
        } else {
            places
        },
        digits.len() > 0 && (forall|i: int|
            0 <= i < digits.len() ==> '0' <= #[trigger] digits[i] <= '9') && places
            <= 0x7fff_ffff_ffff_ffff ==> r is Some,
        digits.len() > 0 && (forall|i: int|
            0 <= i < digits.len() ==> '0' <= #[trigger] digits[i] <= '9') && places
            == 0x8000_0000_0000_0000 ==> (r is Some <==> s@[0] == '-'),
        places > 0x8000_0000_0000_0000 ==> r is None,
{
    let signed = s@.len() > 0 && (s@[0] == '-' || s@[0] == '+');
    if signed {
        assert(s@.skip(1) == digits);
    }
    if digits.len() > 0 && (forall|i: int|
        0 <= i < digits.len() ==> '0' <= #[trigger] digits[i] <= '9') {
        assert forall|i: int| 0 <= i < digits.len() implies is_digit(#[trigger] digits[i]) by {
        }
        assert(is_digits(digits));
    }
    if is_digits(digits) {
        assert forall|i: int| 0 <= i < digits.len() implies '0' <= #[trigger] digits[i] <= '9' by {
            assert(is_digit(digits[i]));
        }
        lemma_digits_value_is_positional(digits);
    }
}

/// White space is the tab, the line breaks, the space, and the other spaces of Unicode.
pub proof fn law_white_space_is_that_of_unicode(c: char, r: bool)
    requires
        call_ensures(white_space, (c,), r),
    ensures
        r == is_white_space(c),
        r <==> {
            ||| c == '\t' || c == '\n' || c as u32 == 0x0b || c as u32 == 0x0c || c == '\r'
            ||| c == ' ' || c as u32 == 0x85 || c as u32 == 0xa0 || c as u32 == 0x1680
            ||| 0x2000 <= c as u32 <= 0x200a
            ||| c as u32 == 0x2028 || c as u32 == 0x2029 || c as u32 == 0x202f
            ||| c as u32 == 0x205f || c as u32 == 0x3000
        },
{
}

/// What `trim_start` takes away.
proof fn lemma_trim_start_takes(s: Seq<char>) -> (before: Seq<char>)
    ensures
        s == before + trim_start(s),
        forall|i: int| 0 <= i < before.len() ==> is_white_space(#[trigger] before[i]),
        trim_start(s).len() > 0 ==> !is_white_space(trim_start(s)[0]),
    decreases s.len(),
{
    if s.len() > 0 && is_white_space(s[0]) {
        let before = lemma_trim_start_takes(s.skip(1));
        let whole = seq![s[0]] + before;
        assert(s == whole + trim_start(s)) by {
            assert(s == seq![s[0]] + s.skip(1));
        }
        whole
    } else {
        assert(s == Seq::<char>::empty() + s);
        Seq::empty()
    }
}

/// What `trim_end` takes away.
proof fn lemma_trim_end_takes(s: Seq<char>) -> (after: Seq<char>)
    ensures
        s == trim_end(s) + after,
        forall|i: int| 0 <= i < after.len() ==> is_white_space(#[trigger] after[i]),
        trim_end(s).len() > 0 ==> !is_white_space(trim_end(s).last()),
    decreases s.len(),
{
    if s.len() > 0 && is_white_space(s.last()) {
        let after = lemma_trim_end_takes(s.drop_last());
        let whole = after.push(s.last());
        assert(s == trim_end(s) + whole) by {
            assert(s == s.drop_last().push(s.last()));
        }
        whole
    } else {
        assert(s == s + Seq::<char>::empty());
        Seq::empty()
    }
}

/// Trimming takes white space away from both ends of a text, all of it and nothing else.
pub proof fn law_trim_takes_white_space_and_nothing_else(s: &str, t: &str) -> (ends: (
    Seq<char>,
    Seq<char>,
))
    requires
        call_ensures(trim, (s,), t),
    ensures
        s@ == ends.0 + t@ + ends.1,
        forall|i: int| 0 <= i < ends.0.len() ==> is_white_space(#[trigger] ends.0[i]),
        forall|i: int| 0 <= i < ends.1.len() ==> is_white_space(#[trigger] ends.1[i]),
        t@.len() > 0 ==> !is_white_space(t@[0]) && !is_white_space(t@.last()),
{
    let before = lemma_trim_start_takes(s@);
    let after = lemma_trim_end_takes(trim_start(s@));
    assert(s@ == before + t@ + after);
    if t@.len() > 0 {
        assert(trim_start(s@)[0] == t@[0]);
    }
    (before, after)
}

} // verus!
