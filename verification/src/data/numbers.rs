//! Decimal text of the numeric fields.

use vstd::prelude::*;

verus! {

/// The decimal digit that stands for `d`, a number below ten.
pub open spec fn digit(d: int) -> char
    recommends
        0 <= d < 10,
{
    seq!['0', '1', '2', '3', '4', '5', '6', '7', '8', '9'][d]
}

/// The decimal digits of `n`, the most significant first, with no leading
/// zero but for `n == 0`, which is `"0"`.
pub open spec fn decimal(n: nat) -> Seq<char>
    decreases n,
{
    if n < 10 {
        seq![digit(n as int)]
    } else {
        decimal(n / 10).push(digit((n % 10) as int))
    }
}

/// The text of a numeric field: the decimal digits of `n`, and in front of
/// them one zero where the field has two digits and `n` has one. A number of
/// three digits or more is never cut down to two.
pub open spec fn number_text(n: nat, two_digit: bool) -> Seq<char> {
    if two_digit && n < 10 {
        seq!['0'] + decimal(n)
    } else {
        decimal(n)
    }
}

/// The number that a sequence of decimal digits stands for.
pub open spec fn digits_value(digits: Seq<char>) -> nat
    decreases digits.len(),
{
    if digits.len() == 0 {
        0
    } else {
        (10 * digits_value(digits.drop_last()) + (digits.last() as int - '0' as int)) as nat
    }
}

/// Every character is a decimal digit.
pub open spec fn all_digits(text: Seq<char>) -> bool {
    forall|i: int| 0 <= i < text.len() ==> '0' <= #[trigger] text[i] <= '9'
}

/// The digits written for a number are decimal digits, begin with a zero only
/// for zero itself, and read back as the number.
pub proof fn lemma_decimal_reads_back(n: nat)
    ensures
        all_digits(decimal(n)),
        decimal(n).len() >= 1,
        decimal(n)[0] == '0' <==> n == 0,
        n < 10 <==> decimal(n).len() == 1,
        digits_value(decimal(n)) == n,
    decreases n,
{
    if n < 10 {
        let one = decimal(n);
        assert(one.drop_last() =~= Seq::<char>::empty());
        assert(digits_value(one.drop_last()) == 0);
    } else {
        lemma_decimal_reads_back(n / 10);
        let front = decimal(n / 10);
        let all = decimal(n);
        assert(all.drop_last() =~= front);
        assert(all.last() == digit((n % 10) as int));
    }
}

/// The text of a numeric field reads back as the number, and a field of two
/// digits is at least two characters wide.
pub proof fn lemma_number_text_reads_back(n: nat, two_digit: bool)
    ensures
        all_digits(number_text(n, two_digit)),
        digits_value(number_text(n, two_digit)) == n,
        two_digit ==> number_text(n, two_digit).len() >= 2,
        n >= 10 || !two_digit ==> number_text(n, two_digit) == decimal(n),
{
    lemma_decimal_reads_back(n);
    if two_digit && n < 10 {
        let text = number_text(n, two_digit);
        assert(text =~= seq!['0', digit(n as int)]);
        assert(text.drop_last() =~= seq!['0']);
        assert(seq!['0'].drop_last() =~= Seq::<char>::empty());
        assert(digits_value(seq!['0'].drop_last()) == 0);
        assert(digits_value(seq!['0']) == 0);
    }
}

/// The character of one decimal digit.
fn digit_char(d: usize) -> (c: char)
    requires
        d < 10,
    ensures
        c == digit(d as int),
{
    if d == 0 {
        '0'
    } else if d == 1 {
        '1'
    } else if d == 2 {
        '2'
    } else if d == 3 {
        '3'
    } else if d == 4 {
        '4'
    } else if d == 5 {
        '5'
    } else if d == 6 {
        '6'
    } else if d == 7 {
        '7'
    } else if d == 8 {
        '8'
    } else {
        '9'
    }
}

/// Appends the decimal digits of `num`.
fn push_decimal(result: &mut String, num: usize)
    ensures
        final(result)@ == old(result)@ + decimal(num as nat),
    decreases num,
{
    if num >= 10 {
        push_decimal(result, num / 10);
    }
    result.push(digit_char(num % 10));
    proof {
        if num >= 10 {
            assert(old(result)@ + decimal((num / 10) as nat).push(digit((num % 10) as int))
                =~= (old(result)@ + decimal((num / 10) as nat)).push(digit((num % 10) as int)));
        } else {
            assert(old(result)@ + seq![digit(num as int)] =~= old(result)@.push(
                digit(num as int),
            ));
        }
    }
}

/// Appends `num` in decimal to `result`, with a zero in front of a single
/// digit where `two_digit` is set.
pub fn format_number(result: &mut String, num: usize, two_digit: bool)
    ensures
        final(result)@ == old(result)@ + number_text(num as nat, two_digit),
{
    if two_digit && num < 10 {
        result.push('0');
        push_decimal(result, num);
        assert(old(result)@.push('0') + decimal(num as nat) =~= old(result)@ + (seq!['0']
            + decimal(num as nat)));
    } else {
        push_decimal(result, num);
    }
}

} // verus!
