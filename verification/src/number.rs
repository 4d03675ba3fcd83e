//! Whole numbers in decimal, written and read.

use vstd::prelude::*;
use vstd::string::*;

use crate::text::chars_of;

verus! {

/// The character for a decimal digit.
pub open spec fn digit(d: nat) -> char {
    (48 + d) as char
}

/// `n` in decimal, without leading zeros.
pub open spec fn decimal(n: nat) -> Seq<char>
    decreases n,
{
    if n < 10 {
        seq![digit(n)]
    } else {
        decimal(n / 10).push(digit(n % 10))
    }
}

/// `n` in decimal, with a minus sign where it is negative.
pub open spec fn signed_decimal(n: int) -> Seq<char> {
    if n < 0 {
        seq!['-'] + decimal((-n) as nat)
    } else {
        decimal(n as nat)
    }
}

pub open spec fn is_digit(c: char) -> bool {
    '0' <= c <= '9'
}

pub open spec fn all_digits(s: Seq<char>) -> bool {
    forall|i: int| 0 <= i < s.len() ==> is_digit(#[trigger] s[i])
}

/// The number that a run of digits denotes.
pub open spec fn digits_value(s: Seq<char>) -> nat
    decreases s.len(),
{
    if s.len() == 0 {
        0
    } else {
        (10 * digits_value(s.drop_last()) + (s.last() as int - 48)) as nat
    }
}

/// `s` without the sign that it may begin with.
pub open spec fn unsigned_part(s: Seq<char>) -> Seq<char> {
    if s.len() > 0 && (s.first() == '-' || s.first() == '+') {
        s.drop_first()
    } else {
        s
    }
}

/// The integer that `s` denotes: an optional sign and at least one digit, in
/// the range of `i32`, and nothing else.
pub open spec fn i32_of(s: Seq<char>) -> Option<int> {
    let body = unsigned_part(s);
    let size = digits_value(body) as int;
    let value = if s.len() > 0 && s.first() == '-' {
        -size
    } else {
        size
    };
    if body.len() > 0 && all_digits(body) && i32::MIN <= value <= i32::MAX {
        Some(value)
    } else {
        None
    }
}

/// The text for a decimal digit.
fn digit_text(d: u64) -> (r: &'static str)
    requires
        d < 10,
    ensures
        r@ == seq![digit(d as nat)],
{
    proof {
        reveal_strlit("0");
        reveal_strlit("1");
        reveal_strlit("2");
        reveal_strlit("3");
        reveal_strlit("4");
        reveal_strlit("5");
        reveal_strlit("6");
        reveal_strlit("7");
        reveal_strlit("8");
        reveal_strlit("9");
    }
    if d == 0 {
        "0"
    } else if d == 1 {
        "1"
    } else if d == 2 {
        "2"
    } else if d == 3 {
        "3"
    } else if d == 4 {
        "4"
    } else if d == 5 {
        "5"
    } else if d == 6 {
        "6"
    } else if d == 7 {
        "7"
    } else if d == 8 {
        "8"
    } else {
        "9"
    }
}

/// Writes `n` in decimal.
pub fn decimal_text(n: u64) -> (r: String)
    ensures
        r@ == decimal(n as nat),
    decreases n,
{
    if n < 10 {
        digit_text(n).to_owned()
    } else {
        let mut head: String = decimal_text(n / 10);
        head.append(digit_text(n % 10));
        proof {
            assert(head@ =~= decimal((n / 10) as nat).push(digit((n % 10) as nat)));
        }
        head
    }
}

/// Writes `n` in decimal, with a minus sign where it is negative.
pub fn signed_decimal_text(n: i32) -> (r: String)
    ensures
        r@ == signed_decimal(n as int),
{
    if n < 0 {
        let size: i64 = -(n as i64);
        let mut out: String = "-".to_owned();
        out.append(decimal_text(size as u64).as_str());
        proof {
            reveal_strlit("-");
            assert(out@ =~= signed_decimal(n as int));
        }
        out
    } else {
        decimal_text(n as u64)
    }
}

/// The value does not shrink as digits are added.
proof fn digits_value_grows(s: Seq<char>, k: int)
    requires
        all_digits(s),
        0 <= k <= s.len(),
    ensures
        digits_value(s.take(k)) <= digits_value(s),
    decreases s.len(),
{
    if k == s.len() {
        assert(s.take(k) =~= s);
    } else {
        let shorter = s.drop_last();
        assert(all_digits(shorter)) by {
            assert forall|i: int| 0 <= i < shorter.len() implies is_digit(#[trigger] shorter[i]) by {
                assert(shorter[i] == s[i]);
            }
        }
        digits_value_grows(shorter, k);
        assert(shorter.take(k) =~= s.take(k));
        assert(is_digit(s[s.len() - 1]));
    }
}

/// Reads an integer in the range of `i32`.
pub fn parse_i32(s: &str) -> (r: Option<i32>)
    ensures
        match r {
            Some(n) => i32_of(s@) == Some(n as int),
            None => i32_of(s@) is None,
        },
{
    let chars: Vec<char> = chars_of(s);
    let n: usize = chars.len();
    let signed: bool = n > 0 && (chars[0] == '-' || chars[0] == '+');
    let negative: bool = n > 0 && chars[0] == '-';
    let start: usize = if signed {
        1
    } else {
        0
    };
    let ghost body = unsigned_part(s@);
    proof {
        assert(body =~= s@.skip(start as int));
    }
    if start == n {
        return None;
    }
    let mut value: u64 = 0;
    let mut i: usize = start;
    while i < n
        invariant
            start <= i <= n,
            n == s@.len(),
            chars@ == s@,
            body == s@.skip(start as int),
            all_digits(body.take(i - start)),
            value <= 2_147_483_648,
            value == digits_value(body.take(i - start)),
            i32_of(s@) is Some ==> all_digits(body) && digits_value(body) <= 2_147_483_648,
        decreases n - i,
    {
        let c: char = chars[i];
        let ghost upto = body.take(i - start + 1);
        proof {
            assert(upto.drop_last() =~= body.take(i - start));
            assert(upto.last() == c);
            assert(body[i - start] == c);
        }
        if c < '0' || '9' < c {
            proof {
                assert(!is_digit(body[i - start]));
            }
            return None;
        }
        let d: u64 = (c as u32 - 48) as u64;
        value = value * 10 + d;
        proof {
            assert forall|j: int| 0 <= j < upto.len() implies is_digit(#[trigger] upto[j]) by {
                if j < i - start {
                    assert(upto[j] == body.take(i - start)[j]);
                }
            }
        }
        if value > 2_147_483_648 {
            proof {
                if all_digits(body) {
                    digits_value_grows(body, i - start + 1);
                }
            }
            return None;
        }
        i = i + 1;
    }
    proof {
        assert(body.take(n - start) =~= body);
    }
    if negative {
        Some((-(value as i64)) as i32)
    } else if value <= 2_147_483_647 {
        Some(value as i32)
    } else {
        None
    }
}

/// A number in decimal has at least one digit and nothing but digits, and the
/// digits denote the number.
pub proof fn decimal_denotes_its_number(n: nat)
    ensures
        decimal(n).len() > 0,
        all_digits(decimal(n)),
        digits_value(decimal(n)) == n,
    decreases n,
{
    if n < 10 {
        let s = decimal(n);
        assert(s.drop_last() =~= Seq::<char>::empty());
        assert(digits_value(s.drop_last()) == 0);
        assert(s.last() == digit(n));
    } else {
        decimal_denotes_its_number(n / 10);
        let s = decimal(n);
        assert(s.drop_last() =~= decimal(n / 10));
        assert(s.last() == digit(n % 10));
        assert forall|i: int| 0 <= i < s.len() implies is_digit(#[trigger] s[i]) by {
            if i < s.len() - 1 {
                assert(s[i] == decimal(n / 10)[i]);
            }
        }
    }
}

/// An integer that is written in decimal is read back.
pub proof fn written_integers_are_read_back(n: int)
    requires
        i32::MIN <= n <= i32::MAX,
    ensures
        i32_of(signed_decimal(n)) == Some(n),
{
    let size = if n < 0 {
        (-n) as nat
    } else {
        n as nat
    };
    decimal_denotes_its_number(size);
    let s = signed_decimal(n);
    if n < 0 {
        assert(s.drop_first() =~= decimal(size));
    } else {
        assert(is_digit(s[0]));
    }
}

/// A number of more than one digit is written as the number without its last
/// digit, and then that digit; a digit is written as itself.
pub proof fn decimals_grow_by_digits(n: nat, d: nat)
    requires
        d < 10,
    ensures
        decimal(d).len() == 1,
        decimal(d)[0] as int == '0' as int + d,
        n > 0 ==> decimal(10 * n + d) == decimal(n) + decimal(d),
{
    if n > 0 {
        let m = 10 * n + d;
        assert(m / 10 == n && m % 10 == d);
        assert(decimal(m) =~= decimal(n) + decimal(d));
    }
}

/// A digit at the end of a run of digits is worth itself, and makes the digits
/// before it worth ten times as much.
pub proof fn digits_are_worth_their_place(s: Seq<char>, c: char)
    requires
        is_digit(c),
    ensures
        digits_value(Seq::empty()) == 0,
        digits_value(s.push(c)) == 10 * digits_value(s) + (c as int - '0' as int),
{
    assert(s.push(c).drop_last() =~= s);
}

/// An integer is read from digits alone or behind one sign, where it is in
/// range; the sign turns the number round.
pub proof fn integers_are_read_with_a_sign_or_without(body: Seq<char>)
    requires
        body.len() > 0,
        forall|i: int| 0 <= i < body.len() ==> '0' <= #[trigger] body[i] <= '9',
    ensures
        i32_of(body) == if digits_value(body) <= 2147483647 {
            Some(digits_value(body) as int)
        } else {
            None
        },
        i32_of(seq!['+'] + body) == i32_of(body),
        i32_of(seq!['-'] + body) == if digits_value(body) <= 2147483648 {
            Some(-(digits_value(body) as int))
        } else {
            None
        },
{
    assert(all_digits(body));
    assert(body.first() == body[0]);
    assert((seq!['+'] + body).drop_first() =~= body);
    assert((seq!['-'] + body).drop_first() =~= body);
}

/// Nothing but a sign and digits is read as an integer.
pub proof fn nothing_else_is_an_integer(s: Seq<char>, at: int)
    requires
        0 <= at < s.len(),
        !('0' <= s[at] <= '9'),
        at > 0 || s.len() == 1 || s[at] != '+' && s[at] != '-',
    ensures
        i32_of(s) is None,
        i32_of(Seq::empty()) is None,
{
    let body = unsigned_part(s);
    if body.len() == s.len() {
        assert(body[at] == s[at]);
        assert(!is_digit(body[at]));
    } else if at > 0 {
        assert(body[at - 1] == s[at]);
        assert(!is_digit(body[at - 1]));
    }
}

} // verus!
