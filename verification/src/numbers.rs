//! Numbers as tags write them: decimal numerals, read and written.

use vstd::prelude::*;
use vstd::string::*;

verus! {

/// `c` is one of the digits `0` to `9`.
pub open spec fn is_digit(c: char) -> bool {
    '0' <= c <= '9'
}

/// The value of the digit `c`.
pub open spec fn digit_value(c: char) -> nat {
    (c as int - '0' as int) as nat
}

/// Every character of `s` is a digit.
pub open spec fn all_digits(s: Seq<char>) -> bool {
    forall|i: int| 0 <= i < s.len() ==> is_digit(#[trigger] s[i])
}

/// The number that the digits `s` write in base ten.
pub open spec fn digits_value(s: Seq<char>) -> nat
    decreases s.len(),
{
    if s.len() == 0 {
        0
    } else {
        digits_value(s.drop_last()) * 10 + digit_value(s.last())
    }
}

/// What is left of `s` once one leading `+`, if there is one, is taken off.
pub open spec fn unsigned_part(s: Seq<char>) -> Seq<char> {
    if s.len() > 0 && s[0] == '+' {
        s.skip(1)
    } else {
        s
    }
}

/// The number that `s` writes: `s` is an optional `+` and then one or more
/// digits, and nothing else, and their value fits in 32 bits. Any other text
/// writes no number.
pub open spec fn number_of(s: Seq<char>) -> Option<u32> {
    let d = unsigned_part(s);
    if d.len() > 0 && all_digits(d) && digits_value(d) <= u32::MAX {
        Some(digits_value(d) as u32)
    } else {
        None
    }
}

/// Digits that extend a numeral do not lower its value.
pub proof fn lemma_digits_value_grows(s: Seq<char>, n: int)
    requires
        0 <= n <= s.len(),
    ensures
        digits_value(s.take(n)) <= digits_value(s),
    decreases s.len() - n,
{
    if n < s.len() {
        lemma_digits_value_grows(s, n + 1);
        assert(s.take(n + 1).drop_last() =~= s.take(n));
    } else {
        assert(s.take(n) =~= s);
    }
}

/// Reads `s` as an unsigned decimal number of 32 bits.
pub fn parse_u32(s: &str) -> (number: Option<u32>)
    ensures
        number == number_of(s@),
{
    let ghost d = unsigned_part(s@);
    let ghost lead: int = if s@.len() > 0 && s@[0] == '+' { 1 } else { 0 };
    let mut value: u64 = 0;
    let mut first = true;
    let mut any = false;
    for c in it: s.chars()
        invariant
            it.seq() == s@,
            d == unsigned_part(s@),
            lead == (if s@.len() > 0 && s@[0] == '+' { 1int } else { 0int }),
            first <==> it.index() == 0,
            any <==> it.index() > lead,
            it.index() >= lead ==> all_digits(d.take(it.index() - lead)) && value == digits_value(
                d.take(it.index() - lead),
            ),
            it.index() < lead ==> value == 0,
            value <= u32::MAX,
    {
        let ghost n = it.index();
        if first && c == '+' {
            assert(d.take(0) =~= Seq::<char>::empty());
        } else {
            if !(c >= '0' && c <= '9') {
                assert(d[n - lead] == c);
                return None;
            }
            let digit = (c as u32 - '0' as u32) as u64;
            assert(d[n - lead] == c);
            assert(d.take(n - lead + 1).drop_last() =~= d.take(n - lead));
            value = value * 10 + digit;
            if value > u32::MAX as u64 {
                proof {
                    lemma_digits_value_grows(d, n - lead + 1);
                }
                return None;
            }
            any = true;
        }
        first = false;
    }
    assert(d.take(d.len() as int) =~= d);
    if any {
        Some(value as u32)
    } else {
        None
    }
}

/// The character that writes the digit `d`.
pub open spec fn digit_char(d: nat) -> char {
    if d == 0 {
        '0'
    } else if d == 1 {
        '1'
    } else if d == 2 {
        '2'
    } else if d == 3 {
        '3'
    } else if d == 4 {
        '4'
    } else if d == 5 {
        '5'
    } else if d == 6 {
        '6'
    } else if d == 7 {
        '7'
    } else if d == 8 {
        '8'
    } else {
        '9'
    }
}

/// The digits that write `n` in base ten, without leading zeros.
pub open spec fn decimal_digits(n: nat) -> Seq<char>
    decreases n,
{
    if n < 10 {
        seq![digit_char(n)]
    } else {
        decimal_digits(n / 10).push(digit_char(n % 10))
    }
}

/// The decimal numeral of `n`: its digits, after a `-` where `n` is
/// negative.
pub open spec fn decimal(n: int) -> Seq<char> {
    if n < 0 {
        seq!['-'] + decimal_digits((-n) as nat)
    } else {
        decimal_digits(n as nat)
    }
}

/// The text of one digit.
fn digit_text(d: u32) -> (text: &'static str)
    requires
        d < 10,
    ensures
        text@ == seq![digit_char(d as nat)],
{
    proof {
        reveal_strlit("0");
        reveal_strlit("1");
        reveal_strlit("2");
        reveal_strlit("3");
        reveal_strlit("4");
        reveal_strlit("5");
        reveal_strlit("6");
        reveal_strlit("7");
        reveal_strlit("8");
        reveal_strlit("9");
    }
    let text = if d == 0 {
        "0"
    } else if d == 1 {
        "1"
    } else if d == 2 {
        "2"
    } else if d == 3 {
        "3"
    } else if d == 4 {
        "4"
    } else if d == 5 {
        "5"
    } else if d == 6 {
        "6"
    } else if d == 7 {
        "7"
    } else if d == 8 {
        "8"
    } else {
        "9"
    };
    assert(text@ =~= seq![digit_char(d as nat)]);
    text
}

/// Writes `n` as a decimal numeral.
pub fn decimal_text(n: i32) -> (text: String)
    ensures
        text@ == decimal(n as int),
{
    let size: u32 = if n < 0 {
        (-(n as i64)) as u32
    } else {
        n as u32
    };
    let mut rest: u32 = size / 10;
    let mut text = String::from_str(digit_text(size % 10));
    while rest > 0
        invariant
            rest > 0 ==> decimal_digits(size as nat) == decimal_digits(rest as nat) + text@,
            rest == 0 ==> decimal_digits(size as nat) == text@,
        decreases rest,
    {
        let ghost before = text@;
        let ghost high = decimal_digits((rest / 10) as nat);
        let ghost low = seq![digit_char((rest % 10) as nat)];
        text = String::from_str(digit_text(rest % 10)).concat(text.as_str());
        proof {
            if rest >= 10 {
                assert(high.push(digit_char((rest % 10) as nat)) + before =~= high + (low + before));
            }
        }
        rest = rest / 10;
    }
    if n < 0 {
        proof {
            reveal_strlit("-");
            assert("-"@ =~= seq!['-']);
        }
        String::from_str("-").concat(text.as_str())
    } else {
        text
    }
}

} // verus!
