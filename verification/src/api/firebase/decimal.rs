//! Decimal text of 64-bit integers: the form in which integers travel on the
//! wire, so that no reader loses precision.
use vstd::prelude::*;
use crate::utils::text::chars_of;

verus! {

/// The character of a decimal digit.
pub open spec fn digit_char(d: int) -> char {
    if d == 0 {
        '0'
    } else if d == 1 {
        '1'
    } else if d == 2 {
        '2'
    } else if d == 3 {
        '3'
    } else if d == 4 {
        '4'
    } else if d == 5 {
        '5'
    } else if d == 6 {
        '6'
    } else if d == 7 {
        '7'
    } else if d == 8 {
        '8'
    } else {
        '9'
    }
}

/// The value of a decimal digit; `None` for any other character.
pub open spec fn digit_value(c: char) -> Option<int> {
    if c == '0' {
        Some(0)
    } else if c == '1' {
        Some(1)
    } else if c == '2' {
        Some(2)
    } else if c == '3' {
        Some(3)
    } else if c == '4' {
        Some(4)
    } else if c == '5' {
        Some(5)
    } else if c == '6' {
        Some(6)
    } else if c == '7' {
        Some(7)
    } else if c == '8' {
        Some(8)
    } else if c == '9' {
        Some(9)
    } else {
        None
    }
}

/// The decimal digits of a natural number, most significant first, without
/// leading zeros.
pub open spec fn digits(n: nat) -> Seq<char>
    decreases n,
{
    if n < 10 {
        seq![digit_char(n as int)]
    } else {
        digits(n / 10).push(digit_char((n % 10) as int))
    }
}

/// The decimal text of an integer: a minus sign for a negative number, then
/// the digits of its magnitude.
pub open spec fn decimal_text(i: int) -> Seq<char> {
    if i < 0 {
        seq!['-'] + digits((-i) as nat)
    } else {
        digits(i as nat)
    }
}

/// The number that a non-empty run of decimal digits spells; `None` where the
/// text is empty or holds anything but digits.
pub open spec fn parse_digits(s: Seq<char>) -> Option<nat>
    decreases s.len(),
{
    if s.len() == 0 {
        None
    } else {
        match digit_value(s.last()) {
            None => None,
            Some(d) => if s.len() == 1 {
                Some(d as nat)
            } else {
                match parse_digits(s.drop_last()) {
                    None => None,
                    Some(high) => Some((high * 10 + d) as nat),
                }
            },
        }
    }
}

/// The integer that a decimal text spells: an optional minus sign followed
/// by one or more digits.
pub open spec fn parse_decimal(s: Seq<char>) -> Option<int> {
    if s.len() > 0 && s[0] == '-' {
        match parse_digits(s.skip(1)) {
            Some(n) => Some(-(n as int)),
            None => None,
        }
    } else {
        match parse_digits(s) {
            Some(n) => Some(n as int),
            None => None,
        }
    }
}

/// The 64-bit integer that a decimal text spells; `None` where the text is
/// no decimal integer or the number does not fit.
pub open spec fn parse_i64(s: Seq<char>) -> Option<i64> {
    match parse_decimal(s) {
        Some(i) => if i64::MIN <= i <= i64::MAX {
            Some(i as i64)
        } else {
            None
        },
        None => None,
    }
}

/// Reading the digits of a number gives the number back.
pub proof fn lemma_parse_digits_of_digits(n: nat)
    ensures
        parse_digits(digits(n)) == Some(n),
        digits(n).len() > 0,
        digits(n)[0] != '-',
    decreases n,
{
    if n < 10 {
        assert(digits(n).last() == digit_char(n as int));
    } else {
        lemma_parse_digits_of_digits(n / 10);
        let s = digits(n);
        assert(s.last() == digit_char((n % 10) as int));
        assert(s.drop_last() =~= digits(n / 10));
        assert(s[0] == digits(n / 10)[0]);
    }
}

/// Reading the decimal text of an integer gives the integer back.
pub proof fn lemma_parse_decimal_text(i: int)
    ensures
        parse_decimal(decimal_text(i)) == Some(i),
{
    if i < 0 {
        lemma_parse_digits_of_digits((-i) as nat);
        assert(decimal_text(i).skip(1) =~= digits((-i) as nat));
    } else {
        lemma_parse_digits_of_digits(i as nat);
    }
}

/// The text of a single decimal digit.
fn digit_str(d: u64) -> (s: &'static str)
    requires
        d < 10,
    ensures
        s@ == seq![digit_char(d as int)],
{
    proof {
        reveal_strlit("0");
        reveal_strlit("1");
        reveal_strlit("2");
        reveal_strlit("3");
        reveal_strlit("4");
        reveal_strlit("5");
        reveal_strlit("6");
        reveal_strlit("7");
        reveal_strlit("8");
        reveal_strlit("9");
    }
    let s = if d == 0 {
        "0"
    } else if d == 1 {
        "1"
    } else if d == 2 {
        "2"
    } else if d == 3 {
        "3"
    } else if d == 4 {
        "4"
    } else if d == 5 {
        "5"
    } else if d == 6 {
        "6"
    } else if d == 7 {
        "7"
    } else if d == 8 {
        "8"
    } else {
        "9"
    };
    assert(s@ =~= seq![digit_char(d as int)]);
    s
}

/// The decimal digits of `n`.
pub fn u64_to_decimal(n: u64) -> (text: String)
    ensures
        text@ == digits(n as nat),
    decreases n,
{
    if n < 10 {
        digit_str(n).to_string()
    } else {
        let mut text = u64_to_decimal(n / 10);
        text.append(digit_str(n % 10));
        text
    }
}

/// The decimal text of `i`.
pub fn i64_to_decimal(i: i64) -> (text: String)
    ensures
        text@ == decimal_text(i as int),
{
    if i < 0 {
        let magnitude: u64 = if i == i64::MIN {
            9223372036854775808u64
        } else {
            (-i) as u64
        };
        let mut text = String::from_str("-");
        proof {
            reveal_strlit("-");
        }
        let tail = u64_to_decimal(magnitude);
        text.append(tail.as_str());
        assert(text@ =~= decimal_text(i as int));
        text
    } else {
        u64_to_decimal(i as u64)
    }
}

/// Whether every character is a decimal digit.
pub open spec fn all_digits(s: Seq<char>) -> bool {
    forall|i: int| 0 <= i < s.len() ==> digit_value(#[trigger] s[i]) is Some
}

/// The number that a run of digits spells, with zero for the empty run.
pub open spec fn digits_value(s: Seq<char>) -> nat
    decreases s.len(),
{
    if s.len() == 0 {
        0
    } else {
        (digits_value(s.drop_last()) * 10 + digit_value(s.last()).unwrap_or(0)) as nat
    }
}

/// A text spells a number exactly when it is a non-empty run of digits.
pub proof fn lemma_parse_digits_total(s: Seq<char>)
    ensures
        parse_digits(s) == if s.len() > 0 && all_digits(s) {
            Some(digits_value(s))
        } else {
            None::<nat>
        },
    decreases s.len(),
{
    if s.len() == 0 {
    } else {
        let front = s.drop_last();
        lemma_parse_digits_total(front);
        if digit_value(s.last()) is None {
            assert(!all_digits(s));
        } else if s.len() == 1 {
            assert(front.len() == 0);
            assert(digits_value(front) == 0);
            assert(all_digits(s)) by {
                assert forall|i: int| 0 <= i < s.len() implies digit_value(#[trigger] s[i])
                    is Some by {
                    assert(s[i] == s.last());
                }
            }
        } else if all_digits(front) {
            assert(all_digits(s)) by {
                assert forall|i: int| 0 <= i < s.len() implies digit_value(#[trigger] s[i])
                    is Some by {
                    if i < s.len() - 1 {
                        assert(s[i] == front[i]);
                    }
                }
            }
        } else {
            assert(!all_digits(s)) by {
                let k = choose|k: int| 0 <= k < front.len() && !(digit_value(#[trigger] front[k]) is Some);
                assert(s[k] == front[k]);
            }
        }
    }
}

/// The value of a digit character, if it is one.
fn digit_of(c: char) -> (d: Option<u64>)
    ensures
        d is Some <==> digit_value(c) is Some,
        d matches Some(v) ==> v < 10 && digit_value(c) == Some(v as int),
{
    if c == '0' {
        Some(0)
    } else if c == '1' {
        Some(1)
    } else if c == '2' {
        Some(2)
    } else if c == '3' {
        Some(3)
    } else if c == '4' {
        Some(4)
    } else if c == '5' {
        Some(5)
    } else if c == '6' {
        Some(6)
    } else if c == '7' {
        Some(7)
    } else if c == '8' {
        Some(8)
    } else if c == '9' {
        Some(9)
    } else {
        None
    }
}

/// Reads a decimal integer: an optional minus sign followed by one or more
/// digits, spelling a number that fits in 64 bits.
pub fn decimal_to_i64(s: &str) -> (parsed: Option<i64>)
    ensures
        parsed == parse_i64(s@),
{
    let chars = chars_of(s);
    let n = chars.len();
    let negative = n > 0 && chars[0] == '-';
    let start: usize = if negative {
        1
    } else {
        0
    };
    let ghost text = chars@.skip(start as int);
    proof {
        lemma_parse_digits_total(text);
        if !negative {
            assert(text =~= chars@);
        }
    }
    if start >= n {
        return None;
    }
    let limit: u64 = if negative {
        9223372036854775808u64
    } else {
        9223372036854775807u64
    };
    let mut acc: u64 = 0;
    let mut overflow = false;
    let mut i: usize = start;
    while i < n
        invariant
            start <= i <= n,
            n == chars.len(),
            text == chars@.skip(start as int),
            all_digits(text.take(i - start)),
            !overflow ==> acc == digits_value(text.take(i - start)) && acc <= limit,
            overflow ==> digits_value(text.take(i - start)) > limit,
            parse_digits(text) == if text.len() > 0 && all_digits(text) {
                Some(digits_value(text))
            } else {
                None::<nat>
            },
            s@ == chars@,
            negative == (s@.len() > 0 && s@[0] == '-'),
            start == if negative { 1usize } else { 0usize },
            limit == if negative { 9223372036854775808u64 } else { 9223372036854775807u64 },
        decreases n - i,
    {
        let ghost before = text.take(i - start);
        let ghost after = text.take(i - start + 1);
        proof {
            assert(after.drop_last() =~= before);
            assert(after.last() == chars@[i as int]);
            assert(text[i - start] == chars@[i as int]);
        }
        match digit_of(chars[i]) {
            None => {
                assert(!all_digits(text));
                assert(!negative ==> text =~= s@);
                return None;
            },
            Some(d) => {
                proof {
                    assert(all_digits(after)) by {
                        assert forall|k: int| 0 <= k < after.len() implies digit_value(
                            #[trigger] after[k],
                        ) is Some by {
                            if k < after.len() - 1 {
                                assert(after[k] == before[k]);
                            }
                        }
                    }
                    assert(digits_value(after) == digits_value(before) * 10 + d);
                }
                if !overflow {
                    if acc > (limit - d) / 10 {
                        overflow = true;
                    } else {
                        acc = acc * 10 + d;
                    }
                }
            },
        }
        i += 1;
    }
    proof {
        assert(text.take(n - start) =~= text);
    }
    if overflow {
        None
    } else if negative {
        if acc == 9223372036854775808u64 {
            Some(i64::MIN)
        } else {
            Some(-(acc as i64))
        }
    } else {
        Some(acc as i64)
    }
}

/// The unsigned 64-bit integer that a text spells: an optional plus sign
/// followed by one or more digits, spelling a number that fits.
pub open spec fn parse_u64(s: Seq<char>) -> Option<u64> {
    let digits = if s.len() > 0 && s[0] == '+' {
        s.skip(1)
    } else {
        s
    };
    match parse_digits(digits) {
        Some(n) => if n <= u64::MAX {
            Some(n as u64)
        } else {
            None
        },
        None => None,
    }
}

/// Reads the part of `chars` from `from` to `to` as an unsigned integer.
pub fn digits_to_u64(chars: &Vec<char>, from: usize, to: usize) -> (parsed: Option<u64>)
    requires
        from <= to <= chars.len(),
    ensures
        parsed == parse_u64(chars@.subrange(from as int, to as int)),
{
    let ghost whole = chars@.subrange(from as int, to as int);
    let signed = from < to && chars[from] == '+';
    let start: usize = if signed {
        from + 1
    } else {
        from
    };
    let ghost text = chars@.subrange(start as int, to as int);
    proof {
        lemma_parse_digits_total(text);
        if signed {
            assert(whole[0] == '+');
            assert(text =~= whole.skip(1));
        } else {
            assert(text =~= whole);
            if whole.len() > 0 {
                assert(whole[0] == chars@[from as int]);
            }
        }
    }
    if start >= to {
        return None;
    }
    let mut acc: u64 = 0;
    let mut overflow = false;
    let mut i: usize = start;
    while i < to
        invariant
            from <= start <= i <= to <= chars.len(),
            text == chars@.subrange(start as int, to as int),
            whole == chars@.subrange(from as int, to as int),
            parse_digits(text) == if text.len() > 0 && all_digits(text) {
                Some(digits_value(text))
            } else {
                None::<nat>
            },
            parse_u64(whole) == match parse_digits(text) {
                Some(n) => if n <= u64::MAX {
                    Some(n as u64)
                } else {
                    None
                },
                None => None,
            },
            all_digits(text.take(i - start)),
            !overflow ==> acc == digits_value(text.take(i - start)),
            overflow ==> digits_value(text.take(i - start)) > u64::MAX,
        decreases to - i,
    {
        let ghost before = text.take(i - start);
        let ghost after = text.take(i - start + 1);
        proof {
            assert(after.drop_last() =~= before);
            assert(after.last() == chars@[i as int]);
            assert(text[i - start] == chars@[i as int]);
        }
        match digit_of(chars[i]) {
            None => {
                assert(!all_digits(text));
                return None;
            },
            Some(d) => {
                proof {
                    assert(all_digits(after)) by {
                        assert forall|k: int| 0 <= k < after.len() implies digit_value(
                            #[trigger] after[k],
                        ) is Some by {
                            if k < after.len() - 1 {
                                assert(after[k] == before[k]);
                            }
                        }
                    }
                    assert(digits_value(after) == digits_value(before) * 10 + d);
                }
                if !overflow {
                    if acc > (u64::MAX - d) / 10 {
                        overflow = true;
                    } else {
                        acc = acc * 10 + d;
                    }
                }
            },
        }
        i += 1;
    }
    proof {
        assert(text.take(to - start) =~= text);
    }
    if overflow {
        None
    } else {
        Some(acc)
    }
}

} // verus!
