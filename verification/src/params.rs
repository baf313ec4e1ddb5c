//! The parameter of a count-up request: `diff=<number>`.
//!
//! This is no general form decoder. Only the first `&`-separated field is
//! looked at, nothing is percent-decoded, and `diff` is the only key.

use vstd::prelude::*;
use vstd::std_specs::iter::IteratorSpec;
use vstd::string::*;
use vstd::utf8::{
    decode_utf8, encode_utf8, encode_utf8_decode_utf8, encode_utf8_valid_utf8, valid_utf8,
};

use crate::decimal::{
    decimal, lemma_decimal_reads_back, lemma_decimal_value_of_decimal, spec_parse_usize,
    DecimalReader,
};

verus! {

/// The one key that is recognised.
pub const DIFF_KEY: &'static str = "diff";

/// How many elements of `s` stand before its first `sep`: all of them if it
/// holds none.
pub open spec fn piece_len(s: Seq<char>, sep: char) -> nat
    decreases s.len(),
{
    if s.len() == 0 || s[0] == sep {
        0
    } else {
        1 + piece_len(s.drop_first(), sep)
    }
}

/// What stands before the first `sep` in `s`: all of `s` if it holds none.
pub open spec fn first_piece(s: Seq<char>, sep: char) -> Seq<char> {
    s.take(piece_len(s, sep) as int)
}

/// The amount that `param` asks for.
///
/// The field is what stands before the first `&`. It must hold a `=`; the key
/// is what stands before the first one, and must be `diff`. The value is what
/// follows that `=`, up to the next `=` of the field if there is one, and must
/// read as a number.
pub open spec fn spec_parse_parameter(param: Seq<char>) -> Option<usize> {
    let field = first_piece(param, '&');
    let key = first_piece(field, '=');
    if key.len() < field.len() && key == DIFF_KEY@ {
        spec_parse_usize(first_piece(field.skip(key.len() as int + 1), '='))
    } else {
        None
    }
}

/// `piece_len(s, sep)` is at most the length of `s`, no `sep` stands before
/// it, and one stands at it unless it is the length of `s`.
pub proof fn lemma_piece_len(s: Seq<char>, sep: char)
    ensures
        piece_len(s, sep) <= s.len(),
        forall|i: int| 0 <= i < piece_len(s, sep) ==> s[i] != sep,
        piece_len(s, sep) < s.len() ==> s[piece_len(s, sep) as int] == sep,
    decreases s.len(),
{
    if s.len() != 0 && s[0] != sep {
        let tail = s.drop_first();
        lemma_piece_len(tail, sep);
        assert forall|i: int| 0 <= i < piece_len(s, sep) implies s[i] != sep by {
            if i > 0 {
                assert(s[i] == tail[i - 1]);
            }
        }
    }
}

/// A parameter that ends within `diff=`, or departs from it at `i`, asks
/// for nothing.
proof fn lemma_key_differs(param: Seq<char>, i: int)
    requires
        0 <= i <= DIFF_KEY@.len(),
        i <= param.len(),
        forall|k: int| 0 <= k < i ==> param[k] == DIFF_KEY@[k],
        i < param.len() && i < DIFF_KEY@.len() ==> param[i] != DIFF_KEY@[i],
        i < param.len() && i == DIFF_KEY@.len() ==> param[i] != '=',
    ensures
        spec_parse_parameter(param) is None,
{
    reveal_strlit("diff");
    lemma_piece_len(param, '&');
    lemma_piece_len(first_piece(param, '&'), '=');
}

/// A parameter that starts with `diff=` asks for what the text after it
/// reads as, up to the first `&` or `=`, which stands at `end`.
proof fn lemma_value_piece(param: Seq<char>, end: int)
    requires
        DIFF_KEY@.len() < end <= param.len(),
        forall|k: int| 0 <= k < DIFF_KEY@.len() ==> param[k] == DIFF_KEY@[k],
        param[DIFF_KEY@.len() as int] == '=',
        forall|k: int| DIFF_KEY@.len() < k < end ==> param[k] != '&' && param[k] != '=',
        end < param.len() ==> param[end] == '&' || param[end] == '=',
    ensures
        spec_parse_parameter(param) == spec_parse_usize(
            param.subrange(DIFF_KEY@.len() as int + 1, end),
        ),
{
    reveal_strlit("diff");
    let n = DIFF_KEY@.len() as int;
    let field = first_piece(param, '&');
    let key = first_piece(field, '=');
    let rest = field.skip(n + 1);
    let value = first_piece(rest, '=');
    lemma_piece_len(param, '&');
    lemma_piece_len(field, '=');
    lemma_piece_len(rest, '=');
    assert(field[n] == '=');
    assert(key =~= DIFF_KEY@);
    if value.len() > end - n - 1 {
        assert(rest[end - n - 1] != '=');
    }
    assert(value =~= param.subrange(n + 1, end));
}

/// Reads the amount that `param` asks for.
pub fn parse_parameter(param: &str) -> (r: Option<usize>)
    ensures
        r == spec_parse_parameter(param@),
{
    let mut chars = param.chars();
    let mut expected = DIFF_KEY.chars();
    let ghost mut end: int = 0;
    // The key, and the `=` after it.
    loop
        invariant_except_break
            end <= DIFF_KEY@.len(),
            expected.remaining() == DIFF_KEY@.skip(end),
        invariant
            0 <= end <= param@.len(),
            chars.remaining() == param@.skip(end),
            forall|k: int| 0 <= k < end && k < DIFF_KEY@.len() ==> param@[k] == DIFF_KEY@[k],
        ensures
            end == DIFF_KEY@.len() + 1,
            param@[DIFF_KEY@.len() as int] == '=',
        decreases DIFF_KEY@.len() - end,
    {
        let (wanted, last) = match expected.next() {
            Some(e) => (e, false),
            None => ('=', true),
        };
        if chars.next() != Some(wanted) {
            proof {
                lemma_key_differs(param@, end);
            }
            return None;
        }
        proof {
            end = end + 1;
        }
        if last {
            break;
        }
    }
    // The value: what follows, up to the end of the field or its next `=`.
    let mut reader = DecimalReader::new();
    loop
        invariant_except_break
            chars.remaining() == param@.skip(end),
        invariant
            DIFF_KEY@.len() < end <= param@.len(),
            reader@ == param@.subrange(DIFF_KEY@.len() as int + 1, end),
            forall|k: int| DIFF_KEY@.len() < k < end ==> param@[k] != '&' && param@[k] != '=',
        ensures
            end < param@.len() ==> param@[end] == '&' || param@[end] == '=',
        decreases param@.len() - end,
    {
        match chars.next() {
            Some(c) => {
                if c == '&' || c == '=' {
                    break;
                }
                reader.push(c);
            },
            None => {
                break;
            },
        }
        proof {
            end = end + 1;
        }
    }
    proof {
        lemma_value_piece(param@, end);
    }
    reader.finish()
}

/// `core::str::Utf8Error`, the error of `core::str::from_utf8`. Nothing is
/// read from it.
#[verifier::external_type_specification]
#[verifier::external_body]
pub struct ExUtf8Error(core::str::Utf8Error);

/// `core::str::from_utf8` is believed to return `Ok` for exactly the byte
/// strings that are well-formed UTF-8, and then a `str` made of those same
/// bytes.
pub assume_specification[ core::str::from_utf8 ](v: &[u8]) -> (r: Result<
    &str,
    core::str::Utf8Error,
>)
    ensures
        r is Ok <==> valid_utf8(v@),
        r matches Ok(s) ==> s.spec_bytes() == v@,
;

/// The amount that the body of a count-up request asks for: what its text
/// asks for if it is UTF-8, and nothing if it is not.
pub open spec fn spec_parse_body(body: Seq<u8>) -> Option<usize> {
    if valid_utf8(body) {
        spec_parse_parameter(decode_utf8(body))
    } else {
        None
    }
}

/// Reads the amount that the body of a count-up request asks for.
pub fn parse_body(body: &[u8]) -> (r: Option<usize>)
    ensures
        r == spec_parse_body(body@),
{
    match core::str::from_utf8(body) {
        Ok(param) => {
            proof {
                encode_utf8_decode_utf8(param@);
            }
            parse_parameter(param)
        },
        Err(_) => None,
    }
}

/// Whatever follows the first `&` is ignored: a parameter asks for what its
/// first field alone asks for.
pub proof fn lemma_later_fields_are_ignored(field: Seq<char>, later: Seq<char>)
    requires
        !field.contains('&'),
    ensures
        spec_parse_parameter(field + seq!['&'] + later) == spec_parse_parameter(field),
{
    let param = field + seq!['&'] + later;
    lemma_piece_len(param, '&');
    lemma_piece_len(field, '&');
    assert(param[field.len() as int] == '&');
    assert(first_piece(param, '&') =~= field);
    assert(first_piece(field, '&') =~= field);
}

/// A parameter that does not start with `diff=` asks for nothing.
pub proof fn lemma_parameter_needs_key(param: Seq<char>)
    requires
        !(DIFF_KEY@ + seq!['=']).is_prefix_of(param),
    ensures
        spec_parse_parameter(param) is None,
{
    lemma_departs_from_key(param, 0);
}

/// A parameter that does not start with `diff=`, but agrees with it before
/// `i`, asks for nothing.
proof fn lemma_departs_from_key(param: Seq<char>, i: int)
    requires
        !(DIFF_KEY@ + seq!['=']).is_prefix_of(param),
        0 <= i <= DIFF_KEY@.len() + 1,
        i <= param.len(),
        forall|k: int| 0 <= k < i ==> param[k] == (DIFF_KEY@ + seq!['='])[k],
    ensures
        spec_parse_parameter(param) is None,
    decreases DIFF_KEY@.len() + 1 - i,
{
    let prefix = DIFF_KEY@ + seq!['='];
    if i == prefix.len() {
        assert(prefix.is_prefix_of(param));
    } else if i == param.len() || param[i] != prefix[i] {
        lemma_key_differs(param, i);
    } else {
        lemma_departs_from_key(param, i + 1);
    }
}

/// The parameter that asks for `amount`: `diff=` and the amount in decimal.
pub open spec fn diff_parameter(amount: nat) -> Seq<char> {
    DIFF_KEY@ + seq!['='] + decimal(amount)
}

/// The parameter that asks for an amount is read as asking for just that
/// amount, and so is the body that holds it.
pub proof fn lemma_diff_parameter_asks(amount: usize)
    ensures
        spec_parse_parameter(diff_parameter(amount as nat)) == Some(amount),
        spec_parse_body(encode_utf8(diff_parameter(amount as nat))) == Some(amount),
{
    reveal_strlit("diff");
    let param = diff_parameter(amount as nat);
    let n = DIFF_KEY@.len() as int;
    lemma_decimal_value_of_decimal(amount as nat);
    lemma_decimal_reads_back(amount);
    lemma_value_piece(param, param.len() as int);
    assert(param.subrange(n + 1, param.len() as int) =~= decimal(amount as nat));
    encode_utf8_valid_utf8(param);
    encode_utf8_decode_utf8(param);
}

} // verus!
