//! The starting value, read from text, and the run of candidates that follows it.

use vstd::prelude::*;
use vstd::string::*;
use crate::error::Failure;

verus! {

/// The plus sign, as a byte of text.
const PLUS: u8 = 43;

/// The digit zero, as a byte of text.
const DIGIT_ZERO: u8 = 48;

/// The digit nine, as a byte of text.
const DIGIT_NINE: u8 = 57;

/// Whether `c` is one of the ten decimal digits.
pub open spec fn is_digit(c: char) -> bool {
    '0' as int <= c as int <= '9' as int
}

/// The number that the decimal digits `digits` write, the first digit weighing most.
pub open spec fn decimal_value(digits: Seq<char>) -> nat
    decreases digits.len(),
{
    if digits.len() == 0 {
        0
    } else {
        (10 * decimal_value(digits.drop_last()) + (digits.last() as int - '0' as int)) as nat
    }
}

/// `text` without the plus sign that may lead it.
pub open spec fn unsigned_part(text: Seq<char>) -> Seq<char> {
    if text.len() > 0 && text[0] == '+' {
        text.drop_first()
    } else {
        text
    }
}

/// Whether `text` is a decimal number: one or more digits, which one plus sign may
/// lead, and nothing else.
pub open spec fn is_decimal(text: Seq<char>) -> bool {
    let digits = unsigned_part(text);
    digits.len() > 0 && forall|i: int| 0 <= i < digits.len() ==> is_digit(#[trigger] digits[i])
}

/// The starting value that `text` writes, if it is a decimal number that fits in
/// 128 bits.
pub open spec fn parsed_start(text: Seq<char>) -> Option<u128> {
    if is_decimal(text) && decimal_value(unsigned_part(text)) <= u128::MAX {
        Some(decimal_value(unsigned_part(text)) as u128)
    } else {
        None
    }
}

/// A longer run of digits writes no smaller a number than its beginning.
proof fn lemma_decimal_value_grows(digits: Seq<char>, n: int)
    requires
        0 <= n <= digits.len(),
        forall|i: int| 0 <= i < digits.len() ==> is_digit(#[trigger] digits[i]),
    ensures
        decimal_value(digits.subrange(0, n)) <= decimal_value(digits),
    decreases digits.len(),
{
    if n == digits.len() {
        assert(digits.subrange(0, n) =~= digits);
    } else {
        let shorter = digits.drop_last();
        lemma_decimal_value_grows(shorter, n);
        assert(shorter.subrange(0, n) =~= digits.subrange(0, n));
        assert(is_digit(digits[digits.len() - 1]));
    }
}

/// Reads the starting value from `text`.
pub fn parse_start(text: &str) -> (r: Result<u128, Failure>)
    ensures
        match parsed_start(text@) {
            Some(v) => r == Ok::<u128, Failure>(v),
            None => r == Err::<u128, Failure>(Failure::ParseError),
        },
{
    if !text.is_ascii() {
        proof {
            let digits = unsigned_part(text@);
            if is_decimal(text@) {
                assert forall|i: int| 0 <= i < text@.len() implies 0 <= #[trigger] text@[i] as int
                    <= 0x7f by {
                    if i == 0 && text@[0] == '+' {
                    } else if text@[0] == '+' {
                        assert(is_digit(digits[i - 1]));
                    } else {
                        assert(is_digit(digits[i]));
                    }
                }
                assert(is_ascii(text));
            }
        }
        return Err(Failure::ParseError);
    }
    let bytes = text.as_bytes();
    proof {
        is_ascii_spec_bytes(text);
    }
    let ghost digits = unsigned_part(text@);
    let lead: usize = if bytes.len() > 0 && bytes[0] == PLUS {
        1
    } else {
        0
    };
    assert(digits.len() == text@.len() - lead);
    assert(forall|k: int| 0 <= k < digits.len() ==> digits[k] == text@[k + lead]);
    if bytes.len() == lead {
        return Err(Failure::ParseError);
    }
    let mut value: u128 = 0;
    let mut i: usize = lead;
    while i < bytes.len()
        invariant
            lead <= i <= bytes@.len(),
            bytes@.len() == text@.len(),
            digits.len() == text@.len() - lead,
            digits == unsigned_part(text@),
            forall|k: int| 0 <= k < digits.len() ==> digits[k] == text@[k + lead],
            forall|k: int| 0 <= k < bytes@.len() ==> bytes@[k] == text@[k] as u8,
            forall|k: int| 0 <= k < text@.len() ==> 0 <= #[trigger] text@[k] as int <= 0x7f,
            forall|k: int| 0 <= k < i - lead ==> is_digit(#[trigger] digits[k]),
            value == decimal_value(digits.subrange(0, i - lead)),
        decreases bytes@.len() - i,
    {
        let b: u8 = bytes[i];
        if b < DIGIT_ZERO || b > DIGIT_NINE {
            proof {
                assert(text@[i as int] as u8 == b);
                assert(!is_digit(digits[i - lead]));
            }
            return Err(Failure::ParseError);
        }
        let digit: u128 = (b - DIGIT_ZERO) as u128;
        let ghost longer = digits.subrange(0, i - lead + 1);
        proof {
            assert(text@[i as int] as u8 == b);
            assert(is_digit(digits[i - lead]));
            assert(longer.drop_last() =~= digits.subrange(0, i - lead));
            assert(longer.last() == digits[i - lead]);
            assert(decimal_value(longer) == 10 * value + digit);
            if is_decimal(text@) {
                lemma_decimal_value_grows(digits, i - lead + 1);
            }
        }
        let scaled = match value.checked_mul(10) {
            Some(s) => s,
            None => { return Err(Failure::ParseError); },
        };
        value = match scaled.checked_add(digit) {
            Some(s) => s,
            None => { return Err(Failure::ParseError); },
        };
        i = i + 1;
    }
    assert(digits.subrange(0, i - lead) =~= digits);
    Ok(value)
}

/// The candidates of a range: `count` values that start at `start` and go up by one.
pub open spec fn candidates_from(start: u128, count: u32) -> Seq<u128> {
    Seq::new(count as nat, |i: int| (start + i) as u128)
}

/// Whether the `count` values from `start` on all fit in 128 bits.
pub open spec fn range_fits(start: u128, count: u32) -> bool {
    start + count <= u128::MAX + 1
}

/// A range that fits has exactly `count` candidates; the first is `start`, each
/// is one more than the one before it, and so they strictly increase.
pub proof fn lemma_candidates_consecutive(start: u128, count: u32)
    requires
        range_fits(start, count),
    ensures
        candidates_from(start, count).len() == count,
        forall|i: int| 0 <= i < count ==> #[trigger] candidates_from(start, count)[i] == start + i,
        forall|i: int|
            0 <= i < count - 1 ==> #[trigger] candidates_from(start, count)[i + 1]
                == candidates_from(start, count)[i] + 1,
        forall|i: int, j: int|
            0 <= i < j < count ==> #[trigger] candidates_from(start, count)[i]
                < #[trigger] candidates_from(start, count)[j],
{
}

/// The inputs of one invocation: `count` consecutive values from `start` on, all
/// of which fit in 128 bits.
#[derive(Clone, Copy, Debug)]
pub struct CandidateRange {
    start: u128,
    count: u32,
}

impl CandidateRange {
    #[verifier::type_invariant]
    spec fn fits(self) -> bool {
        range_fits(self.start, self.count)
    }

    /// The first candidate.
    pub closed spec fn spec_start(&self) -> u128 {
        self.start
    }

    /// The number of candidates.
    pub closed spec fn spec_count(&self) -> u32 {
        self.count
    }

    /// The candidates, in order.
    pub open spec fn spec_candidates(&self) -> Seq<u128> {
        candidates_from(self.start(), self.count())
    }

    /// The range of `count` values from `start` on, unless its last value would
    /// not fit in 128 bits.
    pub fn new(start: u128, count: u32) -> (r: Result<CandidateRange, Failure>)
        ensures
            range_fits(start, count) ==> r is Ok && r->Ok_0.start() == start && r->Ok_0.count()
                == count,
            !range_fits(start, count) ==> r == Err::<CandidateRange, Failure>(
                Failure::RangeOverflow,
            ),
    {
        if count > 0 && start > u128::MAX - ((count - 1) as u128) {
            Err(Failure::RangeOverflow)
        } else {
            Ok(CandidateRange { start, count })
        }
    }

    /// The range of `count` values from the value that `text` writes on.
    pub fn from_text(text: &str, count: u32) -> (r: Result<CandidateRange, Failure>)
        ensures
            match parsed_start(text@) {
                None => r == Err::<CandidateRange, Failure>(Failure::ParseError),
                Some(start) => if range_fits(start, count) {
                    r is Ok && r->Ok_0.start() == start && r->Ok_0.count() == count
                } else {
                    r == Err::<CandidateRange, Failure>(Failure::RangeOverflow)
                },
            },
    {
        match parse_start(text) {
            Ok(start) => CandidateRange::new(start, count),
            Err(failure) => Err(failure),
        }
    }

    /// The first candidate.
    #[verifier::when_used_as_spec(spec_start)]
    pub fn start(&self) -> (start: u128)
        ensures
            start == self.spec_start(),
            range_fits(start, self.spec_count()),
    {
        proof {
            use_type_invariant(self);
        }
        self.start
    }

    /// The number of candidates.
    #[verifier::when_used_as_spec(spec_count)]
    pub fn count(&self) -> (count: u32)
        ensures
            count == self.spec_count(),
            range_fits(self.spec_start(), count),
    {
        proof {
            use_type_invariant(self);
        }
        self.count
    }

    /// All candidates, in order.
    pub fn candidates(&self) -> (all: Vec<u128>)
        ensures
            all@ == self.spec_candidates(),
            all@.len() == self.count(),
            forall|i: int| 0 <= i < self.count() ==> #[trigger] all@[i] == self.start() + i,
    {
        proof {
            use_type_invariant(self);
        }
        let mut all: Vec<u128> = Vec::new();
        let mut i: u32 = 0;
        while i < self.count
            invariant
                i <= self.count,
                range_fits(self.start, self.count),
                all@ == candidates_from(self.start, i),
            decreases self.count - i,
        {
            all.push(self.start + (i as u128));
            i = i + 1;
            assert(all@ =~= candidates_from(self.start, i));
        }
        all
    }
}

} // verus!
