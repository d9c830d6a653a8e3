//! The page-count input and its decimal forms.
//!
//! The tool reads the number of results to ask for as one line of text; it
//! must be an unsigned integer that fits in eight bits, written as an
//! optional `+` sign followed by decimal digits. The same module renders a
//! count back to its decimal string for the request's `per_page` parameter.

use vstd::prelude::*;

verus! {

/// The numeric value of a decimal digit character, or `-1` for any other
/// character.
pub open spec fn digit_val(c: char) -> int {
    if c == '0' {
        0
    } else if c == '1' {
        1
    } else if c == '2' {
        2
    } else if c == '3' {
        3
    } else if c == '4' {
        4
    } else if c == '5' {
        5
    } else if c == '6' {
        6
    } else if c == '7' {
        7
    } else if c == '8' {
        8
    } else if c == '9' {
        9
    } else {
        -1
    }
}

/// A decimal digit character.
pub open spec fn is_digit(c: char) -> bool {
    digit_val(c) >= 0
}

/// Every character of `s` is a decimal digit.
pub open spec fn all_digits(s: Seq<char>) -> bool {
    forall|i: int| 0 <= i < s.len() ==> is_digit(#[trigger] s[i])
}

/// The value of a digit string read in base ten; meaningful only when
/// `all_digits` holds of it.
pub open spec fn digits_val(s: Seq<char>) -> int
    decreases s.len(),
{
    if s.len() == 0 {
        0
    } else {
        digits_val(s.drop_last()) * 10 + digit_val(s.last())
    }
}

/// The digit string of `s` once an optional leading `+` sign is removed.
pub open spec fn spec_unsigned_body(s: Seq<char>) -> Seq<char> {
    if s.len() > 0 && s[0] == '+' {
        s.drop_first()
    } else {
        s
    }
}

/// What parsing a page-count line yields: the base-ten value of the digits
/// after an optional `+` sign, provided there is at least one digit, every
/// character is a digit, and the value fits in eight bits; `None` otherwise.
pub open spec fn spec_parse_page_count(s: Seq<char>) -> Option<u8> {
    let t = spec_unsigned_body(s);
    if t.len() > 0 && all_digits(t) && digits_val(t) <= 255 {
        Some(digits_val(t) as u8)
    } else {
        None
    }
}

/// Exec test for [`is_digit`], also returning the digit's value.
fn digit_of(c: char) -> (r: Option<u8>)
    ensures
        r is Some <==> is_digit(c),
        r is Some ==> r->0 as int == digit_val(c),
{
    match c {
        '0' => Some(0),
        '1' => Some(1),
        '2' => Some(2),
        '3' => Some(3),
        '4' => Some(4),
        '5' => Some(5),
        '6' => Some(6),
        '7' => Some(7),
        '8' => Some(8),
        '9' => Some(9),
        _ => None,
    }
}

/// The value of a digit string never goes down as more digits follow.
proof fn lemma_digits_val_monotone(s: Seq<char>, i: int, j: int)
    requires
        all_digits(s),
        0 <= i <= j <= s.len(),
    ensures
        0 <= digits_val(s.subrange(0, i)) <= digits_val(s.subrange(0, j)),
    decreases j - i,
{
    if i == j {
        lemma_digits_val_nonneg(s.subrange(0, i));
    } else {
        lemma_digits_val_monotone(s, i, j - 1);
        assert(s.subrange(0, j).drop_last() =~= s.subrange(0, j - 1));
        assert(digit_val(s.subrange(0, j).last()) >= 0) by {
            assert(is_digit(s[j - 1]));
        }
    }
}

proof fn lemma_digits_val_nonneg(s: Seq<char>)
    requires
        all_digits(s),
    ensures
        digits_val(s) >= 0,
    decreases s.len(),
{
    if s.len() > 0 {
        assert(all_digits(s.drop_last())) by {
            assert(forall|i: int| 0 <= i < s.len() - 1 ==> s.drop_last()[i] == s[i]);
        }
        lemma_digits_val_nonneg(s.drop_last());
        assert(is_digit(s.last()));
    }
}

/// Parse a page-count line: an optional `+` sign followed by decimal
/// digits whose value fits in eight bits. Returns `None` on anything else;
/// the caller treats `None` as fatal before any request is made.
pub fn parse_page_count(s: &str) -> (r: Option<u8>)
    ensures
        r == spec_parse_page_count(s@),
{
    let len = s.unicode_len();
    let start: usize = if len > 0 && s.get_char(0) == '+' {
        1
    } else {
        0
    };
    let ghost t = spec_unsigned_body(s@);
    proof {
        assert(t =~= s@.subrange(start as int, len as int));
    }
    if start >= len {
        return None;
    }
    let mut acc: u16 = 0;
    let mut i: usize = start;
    while i < len
        invariant
            start <= i <= len,
            start < len,
            len == s@.len(),
            t == spec_unsigned_body(s@),
            t == s@.subrange(start as int, len as int),
            all_digits(t.subrange(0, i - start)),
            acc <= 255,
            acc as int == digits_val(t.subrange(0, i - start)),
        decreases len - i,
    {
        let c = s.get_char(i);
        let d = match digit_of(c) {
            Some(d) => d,
            None => {
                proof {
                    assert(t[i - start as int] == s@[i as int]);
                    assert(!all_digits(t));
                }
                return None;
            },
        };
        proof {
            assert(t.subrange(0, i + 1 - start as int).drop_last() =~= t.subrange(
                0,
                i - start as int,
            ));
            assert(t.subrange(0, i + 1 - start as int).last() == s@[i as int]);
            assert(all_digits(t.subrange(0, i + 1 - start as int)));
        }
        let next: u16 = acc * 10 + d as u16;
        if next > 255 {
            proof {
                if all_digits(t) {
                    lemma_digits_val_monotone(t, i + 1 - start as int, t.len() as int);
                    assert(t.subrange(0, t.len() as int) =~= t);
                }
            }
            return None;
        }
        acc = next;
        i = i + 1;
    }
    proof {
        assert(t.subrange(0, len - start as int) =~= t);
    }
    Some(acc as u8)
}

/// The decimal digit character for a value below ten.
pub open spec fn digit_char(d: int) -> char {
    if d == 0 {
        '0'
    } else if d == 1 {
        '1'
    } else if d == 2 {
        '2'
    } else if d == 3 {
        '3'
    } else if d == 4 {
        '4'
    } else if d == 5 {
        '5'
    } else if d == 6 {
        '6'
    } else if d == 7 {
        '7'
    } else if d == 8 {
        '8'
    } else {
        '9'
    }
}

/// The decimal form of a number: no sign, no leading zero except for the
/// number zero itself.
pub open spec fn spec_decimal(n: int) -> Seq<char>
    decreases n,
{
    if n < 10 {
        seq![digit_char(n)]
    } else {
        spec_decimal(n / 10).push(digit_char(n % 10))
    }
}

fn digit_char_of(d: u8) -> (c: char)
    requires
        d < 10,
    ensures
        c == digit_char(d as int),
{
    match d {
        0 => '0',
        1 => '1',
        2 => '2',
        3 => '3',
        4 => '4',
        5 => '5',
        6 => '6',
        7 => '7',
        8 => '8',
        _ => '9',
    }
}

/// Render an eight-bit count as its decimal string, as the request's
/// `per_page` parameter carries it.
pub fn u8_to_decimal(n: u8) -> (r: String)
    ensures
        r@ == spec_decimal(n as int),
{
    let mut out = String::new();
    if n >= 100 {
        out.push(digit_char_of(n / 100));
        out.push(digit_char_of((n / 10) % 10));
        out.push(digit_char_of(n % 10));
        proof {
            assert((n as int) / 10 / 10 == (n as int) / 100) by (nonlinear_arith);
            assert(spec_decimal((n as int) / 100) == seq![digit_char((n as int) / 100)]);
            assert(spec_decimal((n as int) / 10) == spec_decimal((n as int) / 100).push(
                digit_char(((n as int) / 10) % 10),
            ));
            assert(out@ =~= spec_decimal(n as int));
        }
    } else if n >= 10 {
        out.push(digit_char_of(n / 10));
        out.push(digit_char_of(n % 10));
        proof {
            assert(spec_decimal((n as int) / 10) == seq![digit_char((n as int) / 10)]);
            assert(out@ =~= spec_decimal(n as int));
        }
    } else {
        out.push(digit_char_of(n));
        proof {
            assert(out@ =~= spec_decimal(n as int));
        }
    }
    out
}

} // verus!
