//! Decimal text of unsigned 64-bit counters.
//!
//! Attempt counters live in job metadata as decimal strings. This module
//! reads and writes them: `parse_u64` accepts an optional `+` followed by one
//! or more ASCII digits whose value fits in a `u64`; `format_u64` writes the
//! shortest such text.

use vstd::prelude::*;
use vstd::string::*;
use vstd::utf8::is_ascii_chars;

verus! {

/// `c` is one of the ten ASCII digits.
pub open spec fn is_digit(c: char) -> bool {
    '0' <= c && c <= '9'
}

/// The number a digit stands for.
pub open spec fn digit_value(c: char) -> nat {
    (c as int - '0' as int) as nat
}

/// The digit that stands for `d`, for `d < 10`.
pub open spec fn digit_char(d: nat) -> char {
    if d == 0 {
        '0'
    } else if d == 1 {
        '1'
    } else if d == 2 {
        '2'
    } else if d == 3 {
        '3'
    } else if d == 4 {
        '4'
    } else if d == 5 {
        '5'
    } else if d == 6 {
        '6'
    } else if d == 7 {
        '7'
    } else if d == 8 {
        '8'
    } else {
        '9'
    }
}

/// Every character of `s` is a digit.
pub open spec fn all_digits(s: Seq<char>) -> bool {
    forall|i: int| 0 <= i < s.len() ==> is_digit(#[trigger] s[i])
}

/// The number written by the digits of `s`, most significant first.
pub open spec fn digits_value(s: Seq<char>) -> nat
    decreases s.len(),
{
    if s.len() == 0 {
        0
    } else {
        digits_value(s.drop_last()) * 10 + digit_value(s.last())
    }
}

/// `s` without a leading `+`.
pub open spec fn after_sign(s: Seq<char>) -> Seq<char> {
    if s.len() > 0 && s[0] == '+' {
        s.drop_first()
    } else {
        s
    }
}

/// The `u64` that `s` denotes, if it denotes one: an optional `+`, then at
/// least one digit, nothing else, and a value of at most `u64::MAX`.
pub open spec fn parse_u64_spec(s: Seq<char>) -> Option<u64> {
    let body = after_sign(s);
    if body.len() > 0 && all_digits(body) && digits_value(body) <= u64::MAX {
        Some(digits_value(body) as u64)
    } else {
        None
    }
}

/// The shortest decimal text of `n`.
pub open spec fn decimal_text(n: nat) -> Seq<char>
    decreases n,
{
    if n < 10 {
        seq![digit_char(n)]
    } else {
        decimal_text(n / 10).push(digit_char(n % 10))
    }
}

/// A prefix of a digit string never denotes more than the whole string.
pub proof fn lemma_prefix_value_le(s: Seq<char>, k: int)
    requires
        0 <= k <= s.len(),
    ensures
        digits_value(s.take(k)) <= digits_value(s),
    decreases s.len(),
{
    if k == s.len() {
        assert(s.take(k) =~= s);
    } else {
        lemma_prefix_value_le(s.drop_last(), k);
        assert(s.drop_last().take(k) =~= s.take(k));
    }
}

/// Appending one digit multiplies the value by ten and adds the digit.
pub proof fn lemma_value_push(s: Seq<char>, c: char)
    ensures
        digits_value(s.push(c)) == digits_value(s) * 10 + digit_value(c),
{
    assert(s.push(c).drop_last() =~= s);
    assert(s.push(c).last() == c);
}

/// The text written for `n` is made of digits, starts with none but a digit,
/// and denotes `n`.
pub proof fn lemma_decimal_text(n: nat)
    ensures
        decimal_text(n).len() > 0,
        all_digits(decimal_text(n)),
        digits_value(decimal_text(n)) == n,
    decreases n,
{
    if n < 10 {
        let s = decimal_text(n);
        assert(s.len() == 1);
        assert(s[0] == digit_char(n));
        assert(s.drop_last() =~= Seq::<char>::empty());
        assert(digits_value(s.drop_last()) == 0);
        assert(digit_value(digit_char(n)) == n);
    } else {
        lemma_decimal_text(n / 10);
        let head = decimal_text(n / 10);
        let c = digit_char(n % 10);
        lemma_value_push(head, c);
        assert(digit_value(c) == n % 10);
        assert(is_digit(c));
        assert forall|i: int| 0 <= i < head.push(c).len() implies is_digit(
            #[trigger] head.push(c)[i],
        ) by {
            if i < head.len() {
                assert(head.push(c)[i] == head[i]);
            }
        }
    }
}

/// Reading back what `format_u64` writes gives the number that was written.
pub proof fn lemma_parse_decimal_text(n: u64)
    ensures
        parse_u64_spec(decimal_text(n as nat)) == Some(n),
{
    lemma_decimal_text(n as nat);
    let s = decimal_text(n as nat);
    assert(is_digit(s[0]));
    assert(after_sign(s) == s);
}

/// The one-character text of a digit below ten.
fn digit_str(d: u64) -> (r: &'static str)
    requires
        d < 10,
    ensures
        r@ == seq![digit_char(d as nat)],
{
    proof {
        reveal_strlit("0");
        reveal_strlit("1");
        reveal_strlit("2");
        reveal_strlit("3");
        reveal_strlit("4");
        reveal_strlit("5");
        reveal_strlit("6");
        reveal_strlit("7");
        reveal_strlit("8");
        reveal_strlit("9");
    }
    let r = if d == 0 {
        "0"
    } else if d == 1 {
        "1"
    } else if d == 2 {
        "2"
    } else if d == 3 {
        "3"
    } else if d == 4 {
        "4"
    } else if d == 5 {
        "5"
    } else if d == 6 {
        "6"
    } else if d == 7 {
        "7"
    } else if d == 8 {
        "8"
    } else {
        "9"
    };
    assert(r@ =~= seq![digit_char(d as nat)]);
    r
}

/// Writes `n` in decimal, without sign or leading zeros.
pub fn format_u64(n: u64) -> (r: String)
    ensures
        r@ == decimal_text(n as nat),
    decreases n,
{
    if n < 10 {
        String::from_str(digit_str(n))
    } else {
        let mut text = format_u64(n / 10);
        text.append(digit_str(n % 10));
        assert(text@ =~= decimal_text((n / 10) as nat).push(digit_char((n % 10) as nat)));
        text
    }
}

/// Reads a `u64` from its decimal text; `None` where `s` denotes none.
pub fn parse_u64(s: &str) -> (r: Option<u64>)
    ensures
        r == parse_u64_spec(s@),
{
    let ghost body = after_sign(s@);
    if !s.is_ascii() {
        proof {
            let i = choose|i: int| 0 <= i < s@.len() && !('\0' <= #[trigger] s@[i] <= '\u{7f}');
            if body.len() == s@.len() {
                assert(!is_digit(body[i]));
            } else {
                assert(i > 0);
                assert(body[i - 1] == s@[i]);
                assert(!is_digit(body[i - 1]));
            }
        }
        return None;
    }
    proof {
        is_ascii_spec_bytes(s);
    }
    let bytes = s.as_bytes();
    let n: usize = bytes.len();
    let start: usize = if n > 0 && bytes[0] == 43u8 {
        1
    } else {
        0
    };
    assert(body =~= s@.subrange(start as int, n as int)) by {
        if n > 0 {
            assert(s@[0] as u8 == bytes@[0]);
        }
    }
    if start == n {
        return None;
    }
    let mut acc: u64 = 0;
    let mut i: usize = start;
    while i < n
        invariant
            start <= i <= n,
            n == s@.len(),
            bytes@.len() == n,
            is_ascii_chars(s@),
            forall|k: int| 0 <= k < n ==> s@[k] as u8 == #[trigger] bytes@[k],
            body == after_sign(s@),
            body =~= s@.subrange(start as int, n as int),
            all_digits(body.take(i - start)),
            acc == digits_value(body.take(i - start)),
        decreases n - i,
    {
        let b: u8 = bytes[i];
        let ghost c = s@[i as int];
        assert(c as u8 == b);
        assert(body[i - start] == c);
        assert('\0' <= c <= '\u{7f}');
        if b < 48u8 || b > 57u8 {
            assert(!is_digit(c));
            return None;
        }
        assert(is_digit(c));
        let d: u64 = (b - 48u8) as u64;
        assert(d == digit_value(c));
        proof {
            assert(body.take(i + 1 - start) =~= body.take(i - start).push(c));
            lemma_value_push(body.take(i - start), c);
        }
        if acc > (u64::MAX - d) / 10 {
            proof {
                lemma_prefix_value_le(body, i + 1 - start);
            }
            return None;
        }
        acc = acc * 10 + d;
        assert forall|k: int| 0 <= k < body.take(i + 1 - start).len() implies is_digit(
            #[trigger] body.take(i + 1 - start)[k],
        ) by {
            if k < i - start {
                assert(body.take(i + 1 - start)[k] == body.take(i - start)[k]);
            }
        }
        i = i + 1;
    }
    assert(body.take(n - start) =~= body);
    Some(acc)
}

} // verus!
