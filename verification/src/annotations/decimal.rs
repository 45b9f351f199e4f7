//! The decimal names that integer keys have as members of a structural object.
use vstd::prelude::*;

verus! {

/// The character of the decimal digit `d`.
pub open spec fn digit(d: nat) -> char {
    (48 + d) as char
}

/// `c` is one of the characters `0` to `9`.
pub open spec fn is_digit(c: char) -> bool {
    48 <= c as int <= 57
}

/// The decimal notation of `n`, without leading zeros.
pub open spec fn decimal(n: nat) -> Seq<char>
    decreases n,
{
    if n < 10 {
        seq![digit(n)]
    } else {
        decimal(n / 10).push(digit(n % 10))
    }
}

/// The number that a sequence of digits denotes, the last digit counting least.
pub open spec fn digits_value(s: Seq<char>) -> nat
    decreases s.len(),
{
    if s.len() == 0 {
        0
    } else {
        digits_value(s.drop_last()) * 10 + (s.last() as int - 48) as nat
    }
}

/// `s` is the decimal notation of a number: digits only, at least one, and no leading zero
/// but for the number zero itself.
pub open spec fn is_decimal(s: Seq<char>) -> bool {
    &&& s.len() > 0
    &&& forall|i: int| 0 <= i < s.len() ==> is_digit(#[trigger] s[i])
    &&& s.len() > 1 ==> s[0] != '0'
}

/// The number whose decimal notation `s` is, if it is one.
pub open spec fn decimal_value(s: Seq<char>) -> Option<nat> {
    if is_decimal(s) {
        Some(digits_value(s))
    } else {
        None
    }
}

/// The number below `limit + 1` whose decimal notation `s` is, if it is one.
pub open spec fn bounded_decimal_value(s: Seq<char>, limit: nat) -> Option<nat> {
    match decimal_value(s) {
        Some(n) => if n <= limit {
            Some(n)
        } else {
            None
        },
        None => None,
    }
}

/// A sequence of digits that starts with a digit other than zero denotes a number other
/// than zero.
proof fn lemma_digits_value_positive(s: Seq<char>)
    requires
        s.len() > 0,
        forall|i: int| 0 <= i < s.len() ==> is_digit(#[trigger] s[i]),
        s[0] != '0',
    ensures
        digits_value(s) > 0,
    decreases s.len(),
{
    if s.len() > 1 {
        let front = s.drop_last();
        assert forall|i: int| 0 <= i < front.len() implies is_digit(#[trigger] front[i]) by {
            assert(front[i] == s[i]);
        }
        lemma_digits_value_positive(front);
    }
}

/// The decimal notation of a number is a decimal notation, and denotes the number.
pub proof fn lemma_decimal_value_of_decimal(n: nat)
    ensures
        is_decimal(decimal(n)),
        digits_value(decimal(n)) == n,
        decimal_value(decimal(n)) == Some(n),
        n >= 10 ==> decimal(n).len() > 1,
        n > 0 ==> decimal(n)[0] != '0',
    decreases n,
{
    if n < 10 {
        let s = decimal(n);
        assert(digits_value(s.drop_last()) == 0);
    } else {
        let front = decimal(n / 10);
        let s = decimal(n);
        lemma_decimal_value_of_decimal(n / 10);
        assert(s.drop_last() =~= front);
        assert forall|i: int| 0 <= i < s.len() implies is_digit(#[trigger] s[i]) by {
            assert(i < front.len() ==> s[i] == front[i]);
        }
    }
}

/// A decimal notation is the decimal notation of the number that it denotes.
pub proof fn lemma_decimal_of_value(s: Seq<char>)
    requires
        is_decimal(s),
    ensures
        decimal(digits_value(s)) == s,
    decreases s.len(),
{
    if s.len() == 1 {
        assert(digits_value(s.drop_last()) == 0);
    } else {
        let front = s.drop_last();
        assert forall|i: int| 0 <= i < front.len() implies is_digit(#[trigger] front[i]) by {
            assert(front[i] == s[i]);
        }
        lemma_digits_value_positive(front);
        lemma_decimal_of_value(front);
    }
}

/// The number that the first digits of a sequence of digits denote is at most the number
/// that the whole sequence denotes.
proof fn lemma_prefix_value_bounded(s: Seq<char>, i: int)
    requires
        0 <= i <= s.len(),
        forall|j: int| 0 <= j < s.len() ==> is_digit(#[trigger] s[j]),
    ensures
        digits_value(s.take(i)) <= digits_value(s),
    decreases s.len() - i,
{
    if i == s.len() {
        assert(s.take(i) =~= s);
    } else {
        lemma_prefix_value_bounded(s, i + 1);
        let longer = s.take(i + 1);
        assert(longer.drop_last() =~= s.take(i));
    }
}

/// The text of one decimal digit.
fn digit_text(d: u64) -> (text: &'static str)
    requires
        d < 10,
    ensures
        text@ == seq![digit(d as nat)],
{
    proof {
        reveal_strlit("0");
        reveal_strlit("1");
        reveal_strlit("2");
        reveal_strlit("3");
        reveal_strlit("4");
        reveal_strlit("5");
        reveal_strlit("6");
        reveal_strlit("7");
        reveal_strlit("8");
        reveal_strlit("9");
    }
    let text = if d == 0 {
        "0"
    } else if d == 1 {
        "1"
    } else if d == 2 {
        "2"
    } else if d == 3 {
        "3"
    } else if d == 4 {
        "4"
    } else if d == 5 {
        "5"
    } else if d == 6 {
        "6"
    } else if d == 7 {
        "7"
    } else if d == 8 {
        "8"
    } else {
        "9"
    };
    text
}

/// Writes a number in decimal notation.
pub fn to_decimal(n: u64) -> (text: String)
    ensures
        text@ == decimal(n as nat),
    decreases n,
{
    if n < 10 {
        String::from_str(digit_text(n))
    } else {
        let mut text = to_decimal(n / 10);
        text.append(digit_text(n % 10));
        text
    }
}

/// Reads a number in decimal notation, if `text` is one and the number fits 64 bits.
pub fn parse_decimal(text: &str) -> (value: Option<u64>)
    ensures
        value == match bounded_decimal_value(text@, u64::MAX as nat) {
            Some(n) => Some(n as u64),
            None => None,
        },
{
    let len = text.unicode_len();
    if len == 0 {
        return None;
    }
    if len > 1 && text.get_char(0) == '0' {
        return None;
    }
    let mut value: u64 = 0;
    let mut i: usize = 0;
    while i < len
        invariant
            i <= len,
            len == text@.len(),
            len > 0,
            len > 1 ==> text@[0] != '0',
            value == digits_value(text@.take(i as int)),
            forall|j: int| 0 <= j < i ==> is_digit(#[trigger] text@[j]),
        decreases len - i,
    {
        let c = text.get_char(i);
        if c < '0' || c > '9' {
            return None;
        }
        let d: u64 = (c as u32 - '0' as u32) as u64;
        let ghost longer = text@.take(i + 1);
        assert(longer.drop_last() =~= text@.take(i as int));
        if value > (u64::MAX - d) / 10 {
            proof {
                if is_decimal(text@) {
                    lemma_prefix_value_bounded(text@, i + 1);
                }
            }
            return None;
        }
        value = value * 10 + d;
        i += 1;
    }
    assert(text@.take(len as int) =~= text@);
    Some(value)
}

} // verus!
