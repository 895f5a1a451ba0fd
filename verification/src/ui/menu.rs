//! The menu of the line-oriented interface: the message that lists the
//! choices, and the reading of the answer.

use crate::text::{append_chars, chars_of, trim, trim_range, views};
use vstd::prelude::*;

verus! {

/// Why an answer chooses nothing.
#[derive(Debug, Clone, Copy, PartialEq, Eq, Structural)]
pub enum ChoiceError {
    /// The answer is not a number that this machine can hold.
    NotANumber,
    /// The answer is a number, but no choice has it.
    OutOfRange,
}

/// The decimal digit for a number below ten.
pub open spec fn digit(d: int) -> char {
    if d == 0 {
        '0'
    } else if d == 1 {
        '1'
    } else if d == 2 {
        '2'
    } else if d == 3 {
        '3'
    } else if d == 4 {
        '4'
    } else if d == 5 {
        '5'
    } else if d == 6 {
        '6'
    } else if d == 7 {
        '7'
    } else if d == 8 {
        '8'
    } else {
        '9'
    }
}

/// The number that a decimal digit stands for, or ten for another character.
pub open spec fn digit_value(c: char) -> int {
    if c == '0' {
        0
    } else if c == '1' {
        1
    } else if c == '2' {
        2
    } else if c == '3' {
        3
    } else if c == '4' {
        4
    } else if c == '5' {
        5
    } else if c == '6' {
        6
    } else if c == '7' {
        7
    } else if c == '8' {
        8
    } else if c == '9' {
        9
    } else {
        10
    }
}

/// A number in decimal digits, without leading zeros.
pub open spec fn decimal(n: int) -> Seq<char>
    decreases n,
{
    if n < 10 {
        seq![digit(n)]
    } else {
        decimal(n / 10).push(digit(n % 10))
    }
}

/// Whether all characters are decimal digits.
pub open spec fn all_digits(s: Seq<char>) -> bool {
    forall|i: int| 0 <= i < s.len() ==> digit_value(#[trigger] s[i]) < 10
}

/// The number that decimal digits stand for.
pub open spec fn number(digits: Seq<char>) -> int
    decreases digits.len(),
{
    if digits.len() == 0 {
        0
    } else {
        number(digits.drop_last()) * 10 + digit_value(digits.last())
    }
}

/// The digits of an answer: the answer without whitespace around it and
/// without a plus sign before it.
pub open spec fn answer_digits(input: Seq<char>) -> Seq<char> {
    let answer = trim(input);
    if answer.len() > 0 && answer[0] == '+' {
        answer.skip(1)
    } else {
        answer
    }
}

/// Whether an answer is a number that this machine can hold.
pub open spec fn is_number(input: Seq<char>) -> bool {
    let digits = answer_digits(input);
    digits.len() > 0 && all_digits(digits) && number(digits) <= usize::MAX
}

/// The line of one choice: its index, a dot, a space, the choice, a newline.
pub open spec fn choice_line(index: int, choice: Seq<char>) -> Seq<char> {
    decimal(index) + seq!['.', ' '] + choice + seq!['\n']
}

/// The message that lists the choices, each with its index, from zero.
pub open spec fn input_message(choices: Seq<Seq<char>>) -> Seq<char>
    decreases choices.len(),
{
    if choices.len() == 0 {
        "Choose an option:\n"@
    } else {
        input_message(choices.drop_last()) + choice_line(choices.len() - 1, choices.last())
    }
}

/// The digits of a longer number stand for no less.
proof fn lemma_number_grows(digits: Seq<char>, k: int)
    requires
        0 <= k <= digits.len(),
        all_digits(digits),
    ensures
        0 <= number(digits.take(k)) <= number(digits),
    decreases digits.len() - k,
{
    if k == digits.len() {
        assert(digits.take(k) =~= digits);
        lemma_number_nonnegative(digits);
    } else {
        lemma_number_grows(digits, k + 1);
        assert(digits.take(k + 1).drop_last() =~= digits.take(k));
        lemma_number_nonnegative(digits.take(k));
        assert(digit_value(digits[k]) >= 0);
    }
}

proof fn lemma_number_nonnegative(digits: Seq<char>)
    ensures
        number(digits) >= 0,
    decreases digits.len(),
{
    if digits.len() > 0 {
        lemma_number_nonnegative(digits.drop_last());
    }
}

fn digit_char(d: usize) -> (c: char)
    requires
        d < 10,
    ensures
        c == digit(d as int),
{
    if d == 0 {
        '0'
    } else if d == 1 {
        '1'
    } else if d == 2 {
        '2'
    } else if d == 3 {
        '3'
    } else if d == 4 {
        '4'
    } else if d == 5 {
        '5'
    } else if d == 6 {
        '6'
    } else if d == 7 {
        '7'
    } else if d == 8 {
        '8'
    } else {
        '9'
    }
}

fn value_of(c: char) -> (d: usize)
    ensures
        d == digit_value(c),
{
    if c == '0' {
        0
    } else if c == '1' {
        1
    } else if c == '2' {
        2
    } else if c == '3' {
        3
    } else if c == '4' {
        4
    } else if c == '5' {
        5
    } else if c == '6' {
        6
    } else if c == '7' {
        7
    } else if c == '8' {
        8
    } else if c == '9' {
        9
    } else {
        10
    }
}

/// Appends `n` in decimal digits to `s`.
fn push_decimal(s: &mut String, n: usize)
    ensures
        final(s)@ == old(s)@ + decimal(n as int),
    decreases n,
{
    if n >= 10 {
        push_decimal(s, n / 10);
    }
    s.push(digit_char(n % 10));
    proof {
        assert(s@ =~= old(s)@ + decimal(n as int));
    }
}

/// The message that lists the choices, each with its index, from zero.
pub fn build_input_message(choices: &Vec<String>) -> (message: String)
    ensures
        message@ == input_message(views(choices@)),
{
    let mut message = "Choose an option:\n".to_owned();
    let ghost all = views(choices@);
    let mut index: usize = 0;
    proof {
        assert(all.take(0) =~= Seq::<Seq<char>>::empty());
    }
    while index < choices.len()
        invariant
            index <= choices.len(),
            all == views(choices@),
            message@ == input_message(all.take(index as int)),
        decreases choices.len() - index,
    {
        let ghost before = message@;
        push_decimal(&mut message, index);
        message.push('.');
        message.push(' ');
        let choice = chars_of(choices[index].as_str());
        append_chars(&mut message, &choice, 0, choice.len());
        message.push('\n');
        proof {
            let more = all.take(index + 1);
            assert(more.drop_last() =~= all.take(index as int));
            assert(more.last() == choices@[index as int]@);
            assert(choice@.subrange(0, choice.len() as int) =~= choice@);
            assert(message@ =~= before + choice_line(index as int, choice@));
        }
        index += 1;
    }
    proof {
        assert(all.take(choices.len() as int) =~= all);
    }
    message
}

/// The choice that an answer names, where there are `choices_num` choices.
pub fn choose_with_input(input: &str, choices_num: usize) -> (r: Result<usize, ChoiceError>)
    ensures
        match r {
            Ok(index) => is_number(input@) && index == number(answer_digits(input@)) && index
                < choices_num,
            Err(ChoiceError::NotANumber) => !is_number(input@),
            Err(ChoiceError::OutOfRange) => is_number(input@) && number(answer_digits(input@))
                >= choices_num,
        },
{
    let chars = chars_of(input);
    let (trimmed_from, to) = trim_range(&chars, 0, chars.len());
    proof {
        assert(chars@.subrange(0, chars.len() as int) =~= chars@);
    }
    let from = if trimmed_from < to && chars[trimmed_from] == '+' {
        trimmed_from + 1
    } else {
        trimmed_from
    };
    let ghost digits = chars@.subrange(from as int, to as int);
    proof {
        let answer = trim(input@);
        assert(answer == chars@.subrange(trimmed_from as int, to as int));
        if trimmed_from < to {
            assert(answer[0] == chars@[trimmed_from as int]);
        }
        assert(answer_digits(input@) =~= digits);
    }
    if from == to {
        return Err(ChoiceError::NotANumber);
    }
    let mut value: usize = 0;
    let mut i: usize = from;
    proof {
        assert(digits.take(0) =~= Seq::<char>::empty());
    }
    while i < to
        invariant
            from <= i <= to <= chars.len(),
            digits == chars@.subrange(from as int, to as int),
            digits == answer_digits(input@),
            all_digits(digits.take(i - from)),
            value == number(digits.take(i - from)),
        decreases to - i,
    {
        let d = value_of(chars[i]);
        proof {
            let more = digits.take(i - from + 1);
            assert(more.drop_last() =~= digits.take(i - from));
            assert(more.last() == chars@[i as int]);
            assert(digits[i - from] == chars@[i as int]);
        }
        if d >= 10 {
            proof {
                assert(digit_value(digits[i - from]) >= 10);
            }
            return Err(ChoiceError::NotANumber);
        }
        if value > (usize::MAX - d) / 10 {
            proof {
                if all_digits(digits) {
                    assert forall|j: int| 0 <= j < i - from + 1 implies digit_value(
                        #[trigger] digits.take(i - from + 1)[j],
                    ) < 10 by {
                        assert(digits.take(i - from + 1)[j] == digits[j]);
                    }
                    lemma_number_grows(digits, i - from + 1);
                    assert(value * 10 + d > usize::MAX) by (nonlinear_arith)
                        requires
                            value > (usize::MAX - d) / 10,
                            0 <= d < 10,
                    ;
                }
            }
            return Err(ChoiceError::NotANumber);
        }
        assert(value * 10 + d <= usize::MAX) by (nonlinear_arith)
            requires
                value <= (usize::MAX - d) / 10,
                0 <= d < 10,
        ;
        value = value * 10 + d;
        proof {
            assert forall|j: int| 0 <= j < i - from + 1 implies digit_value(
                #[trigger] digits.take(i - from + 1)[j],
            ) < 10 by {
                if j < i - from {
                    assert(digits.take(i - from)[j] == digits.take(i - from + 1)[j]);
                }
            }
        }
        i += 1;
    }
    proof {
        assert(digits.take(to - from) =~= digits);
    }
    if value < choices_num {
        Ok(value)
    } else {
        Err(ChoiceError::OutOfRange)
    }
}

} // verus!
