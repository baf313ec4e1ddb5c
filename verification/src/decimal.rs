//! Unsigned integers as decimal text, in both directions.

use vstd::prelude::*;
use vstd::string::*;

verus! {

/// The ten digits, in order of their value.
pub const DIGITS: &'static str = "0123456789";

/// Whether `c` is one of `0` to `9`.
pub open spec fn is_digit(c: char) -> bool {
    '0' <= c <= '9'
}

/// The value of the digit `c`.
pub open spec fn digit_value(c: char) -> nat
    recommends
        is_digit(c),
{
    (c as nat - '0' as nat) as nat
}

/// The digit whose value is `d`.
pub open spec fn digit_char(d: nat) -> char
    recommends
        d < 10,
{
    (d + '0' as nat) as char
}

/// Whether every element of `text` is a digit.
pub open spec fn all_digits(text: Seq<char>) -> bool {
    forall|i: int| 0 <= i < text.len() ==> is_digit(#[trigger] text[i])
}

/// The number that a run of digits writes, most significant digit first.
/// Leading zeros add nothing; the empty run writes zero.
pub open spec fn decimal_value(digits: Seq<char>) -> nat
    decreases digits.len(),
{
    if digits.len() == 0 {
        0
    } else {
        10 * decimal_value(digits.drop_last()) + digit_value(digits.last())
    }
}

/// `n` in decimal, without sign or leading zeros.
pub open spec fn decimal(n: nat) -> Seq<char>
    decreases n,
{
    if n < 10 {
        seq![digit_char(n)]
    } else {
        decimal(n / 10).push(digit_char(n % 10))
    }
}

/// `text` without the `+` that it may start with.
pub open spec fn unsigned_part(text: Seq<char>) -> Seq<char> {
    if text.len() > 0 && text[0] == '+' {
        text.drop_first()
    } else {
        text
    }
}

/// The number that `text` reads as: an optional `+`, then one or more digits
/// and nothing else, whose value fits in a `usize`. Any other text reads as
/// nothing.
pub open spec fn spec_parse_usize(text: Seq<char>) -> Option<usize> {
    let digits = unsigned_part(text);
    if digits.len() > 0 && all_digits(digits) && decimal_value(digits) <= usize::MAX {
        Some(decimal_value(digits) as usize)
    } else {
        None
    }
}

/// A further `char` is added to what follows the sign, unless it is the
/// sign.
proof fn lemma_unsigned_part_push(text: Seq<char>, c: char)
    ensures
        text.len() == 0 && c == '+' ==> unsigned_part(text.push(c)) == Seq::<char>::empty(),
        !(text.len() == 0 && c == '+') ==> unsigned_part(text.push(c)) == unsigned_part(
            text,
        ).push(c),
{
}

/// A further `char` keeps a run of digits one only if it is a digit, and
/// then writes ten times the number and its own value.
proof fn lemma_digits_push(digits: Seq<char>, c: char)
    ensures
        all_digits(digits.push(c)) == (all_digits(digits) && is_digit(c)),
        decimal_value(digits.push(c)) == 10 * decimal_value(digits) + digit_value(c),
{
    let longer = digits.push(c);
    assert(longer.drop_last() =~= digits);
    assert(longer[digits.len() as int] == c);
}

/// How far the reading of a number has come.
enum Progress {
    /// Nothing has been read.
    Nothing,
    /// A `+` has been read, and nothing else.
    Sign,
    /// Digits have been read, after a `+` or without one, and this is their
    /// value.
    Digits(usize),
    /// Something other than a digit has been read, or the value of the
    /// digits has outgrown `usize`.
    Failed,
}

/// The progress when `c` follows digits of value `value`.
fn with_digit(value: usize, c: char) -> (progress: Progress)
    ensures
        (match progress {
            Progress::Digits(sum) => is_digit(c) && sum == 10 * value + digit_value(c),
            Progress::Failed => !is_digit(c) || 10 * value + digit_value(c) > usize::MAX,
            _ => false,
        }),
{
    if '0' <= c && c <= '9' {
        let digit = (c as u32 - '0' as u32) as usize;
        match value.checked_mul(10) {
            Some(tens) => match tens.checked_add(digit) {
                Some(sum) => Progress::Digits(sum),
                None => Progress::Failed,
            },
            None => Progress::Failed,
        }
    } else {
        Progress::Failed
    }
}

/// Reads a number from text that arrives one `char` at a time.
pub struct DecimalReader {
    /// What has been read.
    text: Ghost<Seq<char>>,
    /// What it amounts to.
    progress: Progress,
}

impl View for DecimalReader {
    type V = Seq<char>;

    closed spec fn view(&self) -> Seq<char> {
        self.text@
    }
}

impl DecimalReader {
    #[verifier::type_invariant]
    spec fn well_formed(self) -> bool {
        let digits = unsigned_part(self.text@);
        match self.progress {
            Progress::Nothing => self.text@.len() == 0,
            Progress::Sign => self.text@.len() > 0 && digits.len() == 0,
            Progress::Digits(value) => digits.len() > 0 && all_digits(digits) && decimal_value(
                digits,
            ) == value,
            Progress::Failed => digits.len() > 0 && (!all_digits(digits) || decimal_value(digits)
                > usize::MAX),
        }
    }

    /// A reader that has read nothing.
    pub fn new() -> (reader: DecimalReader)
        ensures
            reader@ == Seq::<char>::empty(),
    {
        DecimalReader { text: Ghost(Seq::empty()), progress: Progress::Nothing }
    }

    /// Reads `c`.
    pub fn push(&mut self, c: char)
        ensures
            final(self)@ == old(self)@.push(c),
    {
        proof {
            use_type_invariant(&*self);
        }
        let progress = match self.progress {
            Progress::Nothing if c == '+' => Progress::Sign,
            Progress::Nothing | Progress::Sign => with_digit(0, c),
            Progress::Digits(value) => with_digit(value, c),
            Progress::Failed => Progress::Failed,
        };
        proof {
            lemma_unsigned_part_push(self.text@, c);
            lemma_digits_push(unsigned_part(self.text@), c);
        }
        *self = DecimalReader { text: Ghost(self.text@.push(c)), progress };
    }

    /// The number that the text read so far reads as.
    pub fn finish(self) -> (r: Option<usize>)
        ensures
            r == spec_parse_usize(self@),
    {
        proof {
            use_type_invariant(&self);
        }
        match self.progress {
            Progress::Digits(value) => Some(value),
            _ => None,
        }
    }
}

/// The text of the digit whose value is `d`.
fn digit_text(d: usize) -> (text: &'static str)
    requires
        d < 10,
    ensures
        text@ == seq![digit_char(d as nat)],
{
    proof {
        reveal_strlit("0123456789");
    }
    DIGITS.substring_ascii(d, d + 1)
}

/// Writes `n` in decimal at the end of `text`.
pub fn append_decimal(text: &mut String, n: usize)
    ensures
        final(text)@ == old(text)@ + decimal(n as nat),
    decreases n,
{
    if n >= 10 {
        append_decimal(text, n / 10);
    }
    text.append(digit_text(n % 10));
}

/// What `decimal` writes, `decimal_value` reads back: the text is one or more
/// digits, without a sign, and its value is `n`.
pub proof fn lemma_decimal_value_of_decimal(n: nat)
    ensures
        decimal(n).len() > 0,
        all_digits(decimal(n)),
        decimal_value(decimal(n)) == n,
    decreases n,
{
    if n < 10 {
        assert(decimal_value(decimal(n).drop_last()) == 0);
    } else {
        lemma_decimal_value_of_decimal(n / 10);
        assert(decimal(n).drop_last() =~= decimal(n / 10));
    }
}

/// A number written in decimal reads as itself, and so two numbers are
/// written alike only if they are equal.
pub proof fn lemma_decimal_reads_back(n: usize)
    ensures
        spec_parse_usize(decimal(n as nat)) == Some(n),
{
    lemma_decimal_value_of_decimal(n as nat);
}

} // verus!
