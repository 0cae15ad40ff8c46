//! Decimal parsing and formatting for the attribute values the converter
//! reads and writes: pixel sizes and epoch-millisecond timestamps.

use vstd::prelude::*;
use vstd::string::StringExecFns;

verus! {

/// Whether a character is a decimal digit.
pub open spec fn is_digit(c: char) -> bool {
    0x30 <= c as u32 && c as u32 <= 0x39
}

/// The numeric value of a digit character.
pub open spec fn digit_val(c: char) -> int {
    c as u32 - 0x30
}

/// Whether every character is a decimal digit.
pub open spec fn all_digits(s: Seq<char>) -> bool {
    forall|j: int| 0 <= j < s.len() ==> is_digit(#[trigger] s[j])
}

/// The value of a digit string, most significant digit first.
pub open spec fn dec_val(s: Seq<char>) -> int
    decreases s.len(),
{
    if s.len() == 0 {
        0
    } else {
        dec_val(s.drop_last()) * 10 + digit_val(s.last())
    }
}

pub proof fn lemma_dec_val_nonneg(s: Seq<char>)
    requires
        all_digits(s),
    ensures
        dec_val(s) >= 0,
    decreases s.len(),
{
    if s.len() > 0 {
        assert(all_digits(s.drop_last()));
        lemma_dec_val_nonneg(s.drop_last());
        assert(is_digit(s.last()));
    }
}

pub proof fn lemma_dec_val_prefix_mono(s: Seq<char>, i: int, j: int)
    requires
        0 <= i <= j <= s.len(),
        forall|k: int| 0 <= k < j ==> is_digit(#[trigger] s[k]),
    ensures
        dec_val(s.subrange(0, j)) >= dec_val(s.subrange(0, i)),
    decreases j - i,
{
    if i < j {
        let t = s.subrange(0, j);
        let u = s.subrange(0, j - 1);
        assert(t.drop_last() =~= u);
        assert(all_digits(u));
        lemma_dec_val_nonneg(u);
        assert(is_digit(s[j - 1]));
        assert(dec_val(t) == dec_val(u) * 10 + digit_val(t.last()));
        assert(dec_val(t) >= dec_val(u));
        lemma_dec_val_prefix_mono(s, i, j - 1);
    }
}

/// The value of a nonempty all-digit string, if it fits in `u32`.
pub open spec fn parse_u32_spec(s: Seq<char>) -> Option<u32> {
    if s.len() > 0 && all_digits(s) && dec_val(s) <= 0xFFFF_FFFF {
        Option::Some(dec_val(s) as u32)
    } else {
        Option::None
    }
}

/// Parses a nonempty string of decimal digits into a `u32`; any other input,
/// and any value that does not fit, gives `None`.
pub fn parse_u32(text: &str) -> (r: Option<u32>)
    ensures
        r == parse_u32_spec(text@),
{
    let len: usize = text.unicode_len();
    if len == 0 {
        return Option::None;
    }
    let mut acc: u32 = 0;
    let mut i: usize = 0;
    while i < len
        invariant
            0 <= i <= len,
            len == text@.len(),
            forall|k: int| 0 <= k < i ==> is_digit(#[trigger] text@[k]),
            acc == dec_val(text@.subrange(0, i as int)),
        decreases len - i,
    {
        let c = text.get_char(i);
        let n: u32 = c as u32;
        if n < 0x30 || n > 0x39 {
            assert(!is_digit(text@[i as int]));
            return Option::None;
        }
        let d: u32 = n - 0x30;
        let wide: u64 = acc as u64 * 10 + d as u64;
        proof {
            assert(text@.subrange(0, i + 1).drop_last() =~= text@.subrange(0, i as int));
            assert(text@.subrange(0, i + 1).last() == text@[i as int]);
        }
        if wide > 0xFFFF_FFFFu64 {
            proof {
                if all_digits(text@) {
                    lemma_dec_val_prefix_mono(text@, i + 1, len as int);
                    assert(text@.subrange(0, len as int) =~= text@);
                    assert(dec_val(text@) > 0xFFFF_FFFF);
                }
            }
            return Option::None;
        }
        acc = wide as u32;
        i += 1;
    }
    proof {
        assert(text@.subrange(0, len as int) =~= text@);
    }
    Option::Some(acc)
}

/// The value of an optionally `-`-signed digit string, if it fits in `i64`.
pub open spec fn parse_i64_spec(s: Seq<char>) -> Option<i64> {
    if s.len() > 0 && s[0] == '-' {
        let rest = s.subrange(1, s.len() as int);
        if rest.len() > 0 && all_digits(rest) && dec_val(rest) <= 0x8000_0000_0000_0000 {
            Option::Some((-dec_val(rest)) as i64)
        } else {
            Option::None
        }
    } else if s.len() > 0 && all_digits(s) && dec_val(s) <= 0x7FFF_FFFF_FFFF_FFFF {
        Option::Some(dec_val(s) as i64)
    } else {
        Option::None
    }
}

/// Parses the digits of a string known to be sign-free into a magnitude
/// bounded by the given limit.
fn parse_mag(text: &str, from: usize, limit: u64) -> (r: Option<u64>)
    requires
        from <= text@.len(),
    ensures
        ({
            let s = text@.subrange(from as int, text@.len() as int);
            match r {
                Option::Some(v) => s.len() > 0 && all_digits(s) && dec_val(s) == v && v <= limit,
                Option::None => !(s.len() > 0 && all_digits(s) && dec_val(s) <= limit),
            }
        }),
{
    let ghost s = text@.subrange(from as int, text@.len() as int);
    let len: usize = text.unicode_len();
    if from == len {
        return Option::None;
    }
    let mut acc: u64 = 0;
    let mut i: usize = from;
    while i < len
        invariant
            from <= i <= len,
            len == text@.len(),
            s == text@.subrange(from as int, text@.len() as int),
            forall|k: int| 0 <= k < i - from ==> is_digit(#[trigger] s[k]),
            acc == dec_val(s.subrange(0, i - from)),
            acc <= limit,
        decreases len - i,
    {
        let c = text.get_char(i);
        let n: u32 = c as u32;
        proof {
            assert(s[i - from] == text@[i as int]);
        }
        if n < 0x30 || n > 0x39 {
            assert(!is_digit(s[i - from]));
            return Option::None;
        }
        let d: u64 = (n - 0x30) as u64;
        proof {
            assert(s.subrange(0, i - from + 1).drop_last() =~= s.subrange(0, i - from));
            assert(s.subrange(0, i - from + 1).last() == s[i - from]);
        }
        if acc > limit / 10 || d > limit - acc * 10 {
            proof {
                assert(acc * 10 + d > limit);
                if all_digits(s) {
                    lemma_dec_val_prefix_mono(s, i - from + 1, s.len() as int);
                    assert(s.subrange(0, s.len() as int) =~= s);
                    assert(dec_val(s.subrange(0, i - from + 1)) == acc * 10 + d > limit);
                    assert(dec_val(s) > limit);
                }
            }
            return Option::None;
        }
        acc = acc * 10 + d;
        i += 1;
    }
    proof {
        assert(s.subrange(0, s.len() as int) =~= s);
    }
    Option::Some(acc)
}

/// Parses an optionally `-`-signed decimal string into an `i64`; any other
/// input, and any value out of range, gives `None`.
pub fn parse_i64(text: &str) -> (r: Option<i64>)
    ensures
        r == parse_i64_spec(text@),
{
    let len: usize = text.unicode_len();
    if len == 0 {
        return Option::None;
    }
    if text.get_char(0) == '-' {
        match parse_mag(text, 1, 0x8000_0000_0000_0000u64) {
            Option::Some(v) => {
                if v == 0x8000_0000_0000_0000u64 {
                    Option::Some(i64::MIN)
                } else {
                    Option::Some(-((v) as i64))
                }
            },
            Option::None => Option::None,
        }
    } else {
        match parse_mag(text, 0, 0x7FFF_FFFF_FFFF_FFFFu64) {
            Option::Some(v) => {
                proof {
                    assert(text@.subrange(0, text@.len() as int) =~= text@);
                }
                Option::Some(v as i64)
            },
            Option::None => {
                proof {
                    assert(text@.subrange(0, text@.len() as int) =~= text@);
                }
                Option::None
            },
        }
    }
}

/// The digit character of a value between 0 and 9.
pub open spec fn digit_char(d: int) -> char {
    if d == 0 {
        '0'
    } else if d == 1 {
        '1'
    } else if d == 2 {
        '2'
    } else if d == 3 {
        '3'
    } else if d == 4 {
        '4'
    } else if d == 5 {
        '5'
    } else if d == 6 {
        '6'
    } else if d == 7 {
        '7'
    } else if d == 8 {
        '8'
    } else {
        '9'
    }
}

/// The canonical decimal form of a nonnegative value.
pub open spec fn dec_str_nat(n: int) -> Seq<char>
    decreases n,
{
    if n < 10 {
        seq![digit_char(n)]
    } else {
        dec_str_nat(n / 10).push(digit_char(n % 10))
    }
}

/// The canonical decimal form of a value, with `-` for negatives.
pub open spec fn dec_str_i64(n: int) -> Seq<char> {
    if n < 0 {
        seq!['-'] + dec_str_nat(-n)
    } else {
        dec_str_nat(n)
    }
}

/// The decimal form of one digit.
fn digit_str(d: u64) -> (r: &'static str)
    requires
        d < 10,
    ensures
        r@ == seq![digit_char(d as int)],
{
    proof {
        reveal_strlit("0");
        reveal_strlit("1");
        reveal_strlit("2");
        reveal_strlit("3");
        reveal_strlit("4");
        reveal_strlit("5");
        reveal_strlit("6");
        reveal_strlit("7");
        reveal_strlit("8");
        reveal_strlit("9");
    }
    let r = if d == 0 {
        "0"
    } else if d == 1 {
        "1"
    } else if d == 2 {
        "2"
    } else if d == 3 {
        "3"
    } else if d == 4 {
        "4"
    } else if d == 5 {
        "5"
    } else if d == 6 {
        "6"
    } else if d == 7 {
        "7"
    } else {
        "9"
    };
    let r2 = if d == 8 {
        "8"
    } else {
        r
    };
    proof {
        assert(r2@ =~= seq![digit_char(d as int)]);
    }
    r2
}

/// Formats a value in canonical decimal.
pub fn format_u64(n: u64) -> (r: String)
    ensures
        r@ == dec_str_nat(n as int),
    decreases n,
{
    if n < 10 {
        digit_str(n).to_owned()
    } else {
        let mut s = format_u64(n / 10);
        s.append(digit_str(n % 10));
        proof {
            assert(s@ =~= dec_str_nat(n as int));
        }
        s
    }
}

/// Formats a value in canonical decimal.
pub fn format_u32(n: u32) -> (r: String)
    ensures
        r@ == dec_str_nat(n as int),
{
    format_u64(n as u64)
}

/// Formats a value in canonical decimal, with `-` for negatives.
pub fn format_i64(n: i64) -> (r: String)
    ensures
        r@ == dec_str_i64(n as int),
{
    if n >= 0 {
        format_u64(n as u64)
    } else {
        let mag: u64 = if n == i64::MIN {
            0x8000_0000_0000_0000u64
        } else {
            (-n) as u64
        };
        let mut s = String::from_str("-");
        let m = format_u64(mag);
        s.append(m.as_str());
        proof {
            reveal_strlit("-");
            assert("-"@ =~= seq!['-']);
            assert(s@ =~= dec_str_i64(n as int));
        }
        s
    }
}

/// A string with every trailing `px` removed.
pub open spec fn strip_px_spec(s: Seq<char>) -> Seq<char>
    decreases s.len(),
{
    if s.len() >= 2 && s[s.len() - 2] == 'p' && s[s.len() - 1] == 'x' {
        strip_px_spec(s.subrange(0, s.len() - 2))
    } else {
        s
    }
}

/// Removes every trailing `px` from a string slice.
pub fn strip_px(text: &str) -> (r: &str)
    ensures
        r@ == strip_px_spec(text@),
    decreases text@.len(),
{
    let len: usize = text.unicode_len();
    if len >= 2 && text.get_char(len - 2) == 'p' && text.get_char(len - 1) == 'x' {
        strip_px(text.substring_char(0, len - 2))
    } else {
        text
    }
}

/// The pixel size recorded in a style value: the value is trimmed, trailing
/// `px` markers are removed, and the rest must be a decimal `u32`.
pub open spec fn parse_px_spec(s: Seq<char>) -> Option<u32> {
    parse_u32_spec(strip_px_spec(crate::text::trim_spec(s)))
}

/// Reads a pixel size such as `659px` from a style value.
pub fn parse_px(text: &str) -> (r: Option<u32>)
    ensures
        r == parse_px_spec(text@),
{
    parse_u32(strip_px(crate::text::trim_str(text)))
}

} // verus!
