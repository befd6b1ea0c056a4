//! Unsigned decimal numbers as text.
use vstd::prelude::*;

use crate::text::chars_of;

verus! {

/// Is `c` one of `0` to `9`?
pub open spec fn is_digit(c: char) -> bool {
    '0' <= c <= '9'
}

/// The digit of value `n`.
pub open spec fn digit_char(n: nat) -> char {
    ((48 + n) as u32) as char
}

/// The number that a sequence of digits writes.
pub open spec fn digits_value(s: Seq<char>) -> nat
    decreases s.len(),
{
    if s.len() == 0 {
        0
    } else {
        (10 * digits_value(s.drop_last()) + (s.last() as u32 - 48)) as nat
    }
}

/// `s` without one leading `+`.
pub open spec fn after_plus(s: Seq<char>) -> Seq<char> {
    if s.len() > 0 && s[0] == '+' {
        s.skip(1)
    } else {
        s
    }
}

/// The number that `s` writes, where it is at most `max`: an optional `+`, then one or more
/// digits and nothing else.
pub open spec fn number(s: Seq<char>, max: nat) -> Option<nat> {
    let d = after_plus(s);
    if d.len() > 0 && (forall|i: int| 0 <= i < d.len() ==> is_digit(#[trigger] d[i]))
        && digits_value(d) <= max {
        Some(digits_value(d))
    } else {
        None
    }
}

/// The shortest decimal text of `n`.
pub open spec fn decimal(n: nat) -> Seq<char>
    decreases n,
{
    if n < 10 {
        seq![digit_char(n)]
    } else {
        decimal(n / 10).push(digit_char(n % 10))
    }
}

/// A longer run of digits writes no smaller a number.
proof fn lemma_value_grows(s: Seq<char>, k: int)
    requires
        0 <= k <= s.len(),
        forall|i: int| 0 <= i < s.len() ==> is_digit(#[trigger] s[i]),
    ensures
        digits_value(s.take(k)) <= digits_value(s),
    decreases s.len() - k,
{
    if k == s.len() {
        assert(s.take(k) =~= s);
    } else {
        lemma_value_grows(s, k + 1);
        let t = s.take(k + 1);
        assert(t.drop_last() =~= s.take(k));
        assert(t.last() == s[k]);
        assert(is_digit(s[k]));
    }
}

/// The number that `s` writes, where it is at most `max`.
pub fn parse_up_to(s: &str, max: u64) -> (r: Option<u64>)
    ensures
        r matches Some(n) ==> number(s@, max as nat) == Some(n as nat),
        r is None ==> number(s@, max as nat) is None,
{
    let v = chars_of(s);
    let start: usize = if v.len() > 0 && v[0] == '+' {
        1
    } else {
        0
    };
    let ghost d = after_plus(s@);
    proof {
        assert(d =~= v@.skip(start as int));
    }
    if start == v.len() {
        return None;
    }
    let mut n: u64 = 0;
    let mut i: usize = start;
    proof {
        assert(d.take(0) =~= Seq::<char>::empty());
    }
    while i < v.len()
        invariant
            start <= i <= v.len(),
            start < v.len(),
            v@ == s@,
            d == after_plus(s@),
            d == v@.skip(start as int),
            forall|k: int| 0 <= k < i - start ==> is_digit(#[trigger] d[k]),
            n == digits_value(d.take(i - start)),
            n <= max,
        decreases v.len() - i,
    {
        let c = v[i];
        assert(c == d[i - start]);
        if !('0' <= c && c <= '9') {
            assert(!is_digit(d[i - start]));
            return None;
        }
        let digit: u64 = (c as u32 - 48) as u64;
        proof {
            let t = d.take(i - start + 1);
            assert(t.drop_last() =~= d.take(i - start));
            assert(t.last() == c);
            assert(digits_value(t) == 10 * n + digit);
            if forall|k: int| 0 <= k < d.len() ==> is_digit(#[trigger] d[k]) {
                lemma_value_grows(d, i - start + 1);
            }
        }
        if n > max / 10 {
            return None;
        }
        let tens: u64 = n * 10;
        if digit > max - tens {
            return None;
        }
        n = tens + digit;
        i = i + 1;
    }
    assert(d.take(d.len() as int) =~= d);
    Some(n)
}

/// The decimal text of `n`.
pub fn decimal_of(n: u64) -> (r: String)
    ensures
        r@ == decimal(n as nat),
    decreases n,
{
    if n < 10 {
        let mut r: String = String::new();
        r.push((48 + n as u8) as char);
        assert(r@ =~= decimal(n as nat));
        r
    } else {
        let mut r = decimal_of(n / 10);
        let d: u8 = (n % 10) as u8;
        r.push((48 + d) as char);
        r
    }
}

proof fn lemma_decimal(n: nat)
    ensures
        decimal(n).len() > 0,
        digits_value(decimal(n)) == n,
        forall|i: int| 0 <= i < decimal(n).len() ==> is_digit(#[trigger] decimal(n)[i]),
    decreases n,
{
    if n < 10 {
        let s = decimal(n);
        assert(s.drop_last() =~= Seq::<char>::empty());
        assert(digits_value(s) == n) by {
            assert(digits_value(Seq::<char>::empty()) == 0);
            assert(s.last() as u32 == 48 + n);
        }
    } else {
        lemma_decimal(n / 10);
        let s = decimal(n);
        assert(s.drop_last() =~= decimal(n / 10));
        assert(s.last() as u32 == 48 + n % 10);
        assert forall|i: int| 0 <= i < s.len() implies is_digit(#[trigger] s[i]) by {
            if i < s.len() - 1 {
                assert(s[i] == decimal(n / 10)[i]);
            }
        }
    }
}

/// The decimal text of a number reads back as that number.
pub proof fn law_decimal_reads_back(n: nat, max: nat)
    requires
        n <= max,
    ensures
        number(decimal(n), max) == Some(n),
{
    lemma_decimal(n);
    let s = decimal(n);
    assert(is_digit(s[0]));
    assert(after_plus(s) == s);
}

/// A number is written digit by digit: one more digit is ten times as much and that digit.
pub proof fn law_digits_count_by_ten(s: Seq<char>, c: char)
    requires
        is_digit(c),
    ensures
        digits_value(Seq::empty()) == 0,
        digits_value(s.push(c)) == 10 * digits_value(s) + (c as int - '0' as int),
{
    assert(s.push(c).drop_last() =~= s);
}

/// A number is an optional plus and then digits alone, one at least, and no more than the most that
/// is allowed.
pub proof fn law_numbers_are_digits(s: Seq<char>, max: nat)
    ensures
        number(Seq::empty(), max) is None,
        number(seq!['+'], max) is None,
        number(s, max) matches Some(n) ==> n <= max,
        s.len() > 0 && s[0] != '+' ==> number(seq!['+'] + s, max) == number(s, max),
        s.len() > 0 && (forall|i: int| 0 <= i < s.len() ==> '0' <= #[trigger] s[i] <= '9') && digits_value(
            s,
        ) <= max ==> number(s, max) == Some(digits_value(s)),
        s.len() > 0 && s[0] != '+' && (exists|i: int|
            0 <= i < s.len() && !('0' <= #[trigger] s[i] <= '9')) ==> number(s, max) is None,
{
    assert((seq!['+'] + s).skip(1) =~= s);
    assert(seq!['+'].skip(1) =~= Seq::<char>::empty());
    assert((seq!['+'] + s)[0] == '+');
    if s.len() > 0 && (forall|i: int| 0 <= i < s.len() ==> '0' <= #[trigger] s[i] <= '9') {
        assert('0' <= s[0]);
    }
    if s.len() > 0 && s[0] != '+' && (exists|i: int|
        0 <= i < s.len() && !('0' <= #[trigger] s[i] <= '9')) {
        let i = choose|i: int| 0 <= i < s.len() && !('0' <= #[trigger] s[i] <= '9');
        assert(!is_digit(s[i]));
    }
}

/// A number has one decimal text: the digits that write it, without a zero in front.
pub proof fn law_decimal_has_no_zero_in_front(s: Seq<char>, n: nat)
    requires
        s.len() > 0,
        forall|i: int| 0 <= i < s.len() ==> is_digit(#[trigger] s[i]),
        digits_value(s) == n,
        s.len() > 1 ==> s[0] != '0',
    ensures
        decimal(n) == s,
    decreases s.len(),
{
    let head = s.drop_last();
    let c = s.last();
    assert(is_digit(s[s.len() - 1]));
    assert(digits_value(s) == 10 * digits_value(head) + (c as u32 - 48));
    if s.len() == 1 {
        assert(head =~= Seq::<char>::empty());
        assert(digits_value(head) == 0);
        assert(digit_char(n) == c);
        assert(decimal(n) =~= s);
    } else {
        assert(is_digit(s[0]) && s[0] != '0');
        assert forall|i: int| 0 <= i < head.len() implies is_digit(#[trigger] head[i]) by {
            assert(head[i] == s[i]);
        }
        lemma_leading_digit(head);
        let m = digits_value(head);
        assert(n / 10 == m);
        assert(n % 10 == c as u32 - 48);
        law_decimal_has_no_zero_in_front(head, m);
        assert(digit_char(n % 10) == c);
        assert(decimal(n) =~= s);
    }
}

proof fn lemma_leading_digit(s: Seq<char>)
    requires
        s.len() > 0,
        forall|i: int| 0 <= i < s.len() ==> is_digit(#[trigger] s[i]),
        s[0] != '0',
    ensures
        digits_value(s) > 0,
    decreases s.len(),
{
    assert(is_digit(s[0]) && is_digit(s[s.len() - 1]));
    let head = s.drop_last();
    if s.len() > 1 {
        assert forall|i: int| 0 <= i < head.len() implies is_digit(#[trigger] head[i]) by {
            assert(head[i] == s[i]);
        }
        lemma_leading_digit(head);
    } else {
        assert(head =~= Seq::<char>::empty());
        assert(digits_value(head) == 0);
    }
}

} // verus!
