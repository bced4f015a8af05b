//! Results as text: one line for each candidate, numbers in decimal.

use vstd::prelude::*;
use vstd::string::*;
use crate::layout::ComputeResult;
use crate::range::{decimal_value, is_decimal, is_digit, parsed_start, unsigned_part};

verus! {

/// The character that writes the digit `d`.
pub open spec fn digit_char(d: nat) -> char {
    if d == 0 {
        '0'
    } else if d == 1 {
        '1'
    } else if d == 2 {
        '2'
    } else if d == 3 {
        '3'
    } else if d == 4 {
        '4'
    } else if d == 5 {
        '5'
    } else if d == 6 {
        '6'
    } else if d == 7 {
        '7'
    } else if d == 8 {
        '8'
    } else {
        '9'
    }
}

/// `v` in decimal: its digits, the first weighing most, with no sign and no zero
/// in front of another digit.
pub open spec fn decimal_text(v: nat) -> Seq<char>
    decreases v,
{
    if v < 10 {
        seq![digit_char(v)]
    } else {
        decimal_text(v / 10).push(digit_char(v % 10))
    }
}

/// The line that reports one result, its line feed included.
pub open spec fn line_text(result: ComputeResult) -> Seq<char> {
    "n="@ + decimal_text(result.input as nat) + ": steps="@ + decimal_text(result.steps as nat)
        + ", max="@ + decimal_text(result.max_value as nat) + "\n"@
}

/// The lines that report `results`, in order.
pub open spec fn lines_text(results: Seq<ComputeResult>) -> Seq<char>
    decreases results.len(),
{
    if results.len() == 0 {
        Seq::empty()
    } else {
        lines_text(results.drop_last()) + line_text(results.last())
    }
}

/// The report on `results`: a heading, then one line for each result.
pub open spec fn report_text(results: Seq<ComputeResult>) -> Seq<char> {
    "Collatz Results:\n"@ + lines_text(results)
}

/// A number in decimal is one or more digits and nothing else, and it writes
/// that number.
pub proof fn lemma_decimal_text_is_decimal(v: nat)
    ensures
        decimal_text(v).len() > 0,
        forall|i: int| 0 <= i < decimal_text(v).len() ==> is_digit(#[trigger] decimal_text(v)[i]),
        decimal_value(decimal_text(v)) == v,
    decreases v,
{
    if v < 10 {
        let text = decimal_text(v);
        assert(text.drop_last() =~= Seq::<char>::empty());
        assert(decimal_value(text.drop_last()) == 0);
    } else {
        lemma_decimal_text_is_decimal(v / 10);
        let text = decimal_text(v);
        assert(text.drop_last() =~= decimal_text(v / 10));
        assert(text.last() == digit_char(v % 10));
    }
}

/// A starting value written in decimal is read back as itself.
pub proof fn lemma_decimal_round_trip(v: u128)
    ensures
        parsed_start(decimal_text(v as nat)) == Some(v),
{
    lemma_decimal_text_is_decimal(v as nat);
    let text = decimal_text(v as nat);
    assert(is_digit(text[0]));
    assert(unsigned_part(text) == text);
    assert(is_decimal(text));
}

/// The text of one digit.
fn digit_text(d: u8) -> (text: &'static str)
    requires
        d < 10,
    ensures
        text@ == seq![digit_char(d as nat)],
{
    proof {
        reveal_strlit("0");
        reveal_strlit("1");
        reveal_strlit("2");
        reveal_strlit("3");
        reveal_strlit("4");
        reveal_strlit("5");
        reveal_strlit("6");
        reveal_strlit("7");
        reveal_strlit("8");
        reveal_strlit("9");
    }
    let text = if d == 0 {
        "0"
    } else if d == 1 {
        "1"
    } else if d == 2 {
        "2"
    } else if d == 3 {
        "3"
    } else if d == 4 {
        "4"
    } else if d == 5 {
        "5"
    } else if d == 6 {
        "6"
    } else if d == 7 {
        "7"
    } else if d == 8 {
        "8"
    } else {
        "9"
    };
    assert(text@ =~= seq![digit_char(d as nat)]);
    text
}

/// Writes `v` in decimal.
pub fn write_decimal(v: u128) -> (text: String)
    ensures
        text@ == decimal_text(v as nat),
    decreases v,
{
    if v < 10 {
        String::from_str(digit_text(v as u8))
    } else {
        let mut text = write_decimal(v / 10);
        text.append(digit_text((v % 10) as u8));
        assert(text@ =~= decimal_text(v as nat));
        text
    }
}

/// Writes the line that reports one result.
pub fn report_line(result: &ComputeResult) -> (text: String)
    ensures
        text@ == line_text(*result),
{
    let mut text = String::from_str("n=");
    text.append(write_decimal(result.input).as_str());
    text.append(": steps=");
    text.append(write_decimal(result.steps as u128).as_str());
    text.append(", max=");
    text.append(write_decimal(result.max_value).as_str());
    text.append("\n");
    text
}

/// Writes the report on `results`.
pub fn report(results: &[ComputeResult]) -> (text: String)
    ensures
        text@ == report_text(results@),
{
    let mut text = String::from_str("Collatz Results:\n");
    let mut i: usize = 0;
    while i < results.len()
        invariant
            i <= results@.len(),
            text@ == report_text(results@.subrange(0, i as int)),
        decreases results@.len() - i,
    {
        text.append(report_line(&results[i]).as_str());
        i = i + 1;
        proof {
            let done = results@.subrange(0, i as int);
            assert(done.drop_last() =~= results@.subrange(0, i - 1));
            assert(done.last() == results@[i - 1]);
            assert(text@ =~= report_text(done));
        }
    }
    assert(results@.subrange(0, i as int) =~= results@);
    text
}

} // verus!
