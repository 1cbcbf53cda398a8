//! Small verified helpers on strings and characters.
use vstd::prelude::*;
use vstd::string::*;

verus! {

/// Appends one character to a string.
///
/// Wraps `String::push`, which std documents as appending the given `char`
/// to the end of the string.
#[verifier::external_body]
pub(crate) fn push_char(s: &mut String, c: char)
    ensures
        final(s)@ == old(s)@.push(c),
{
    s.push(c);
}

/// Copies a string slice into a new `String` holding the same characters.
pub fn to_owned_string(s: &str) -> (r: String)
    ensures
        r@ == s@,
{
    s.to_owned()
}


/// Whether two string slices hold the same characters.
pub fn str_equals(a: &str, b: &str) -> (r: bool)
    ensures
        r == (a@ == b@),
{
    let n = a.unicode_len();
    let m = b.unicode_len();
    if n != m {
        return false;
    }
    let mut i: usize = 0;
    while i < n
        invariant
            n == a@.len(),
            m == b@.len(),
            n == m,
            i <= n,
            forall|j: int| 0 <= j < i ==> a@[j] == b@[j],
        decreases n - i,
    {
        if a.get_char(i) != b.get_char(i) {
            assert(a@[i as int] != b@[i as int]);
            return false;
        }
        i = i + 1;
    }
    assert(a@ =~= b@);
    true
}


/// Whether `c` is an ASCII decimal digit.
pub open spec fn is_digit(c: char) -> bool {
    '0' <= c && c <= '9'
}

/// The value of a digit character.
pub open spec fn digit_value(c: char) -> int {
    c as int - '0' as int
}

/// The value of a sequence of decimal digits, most significant first.
pub open spec fn digits_value(s: Seq<char>) -> int
    decreases s.len(),
{
    if s.len() == 0 {
        0
    } else {
        digits_value(s.drop_last()) * 10 + digit_value(s.last())
    }
}

/// The digits of a decimal number text: the text without one leading `+`.
pub open spec fn decimal_body(s: Seq<char>) -> Seq<char> {
    if s.len() > 0 && s[0] == '+' {
        s.drop_first()
    } else {
        s
    }
}

/// The value that std's integer parsing reads from `s` for an unsigned type
/// whose largest value is `max`: an optional `+` followed by at least one
/// decimal digit, and nothing else, whose value does not exceed `max`.
pub open spec fn parsed_unsigned(s: Seq<char>, max: int) -> Option<int> {
    let d = decimal_body(s);
    if d.len() > 0 && (forall|i: int| 0 <= i < d.len() ==> is_digit(#[trigger] d[i]))
        && digits_value(d) <= max {
        Some(digits_value(d))
    } else {
        None
    }
}

proof fn lemma_digits_value_monotone(s: Seq<char>, k: int)
    requires
        0 <= k <= s.len(),
        forall|i: int| 0 <= i < s.len() ==> is_digit(#[trigger] s[i]),
    ensures
        0 <= digits_value(s.take(k)) <= digits_value(s),
    decreases s.len(),
{
    if s.len() > 0 {
        let p = s.drop_last();
        assert forall|i: int| 0 <= i < p.len() implies is_digit(#[trigger] p[i]) by {
            assert(p[i] == s[i]);
        }
        assert(is_digit(s[s.len() - 1]));
        if k == s.len() {
            assert(s.take(k) =~= s);
            lemma_digits_value_monotone(p, 0);
        } else {
            assert(p.take(k) =~= s.take(k));
            lemma_digits_value_monotone(p, k);
        }
    } else {
        assert(s.take(k) =~= s);
    }
}

/// A value read from a decimal text lies between 0 and the largest value.
pub proof fn lemma_parsed_unsigned_range(s: Seq<char>, max: int)
    ensures
        parsed_unsigned(s, max) matches Some(v) ==> 0 <= v <= max,
{
    let d = decimal_body(s);
    if parsed_unsigned(s, max) is Some {
        lemma_digits_value_monotone(d, 0);
    }
}

/// Reads an unsigned decimal number as std's `str::parse` does for an
/// unsigned integer type whose largest value is `max`.
pub fn parse_unsigned(s: &str, max: u64) -> (r: Option<u64>)
    ensures
        r matches Some(v) ==> parsed_unsigned(s@, max as int) == Some(v as int),
        r is None ==> parsed_unsigned(s@, max as int) is None,
{
    let n = s.unicode_len();
    let mut start: usize = 0;
    if n > 0 && s.get_char(0) == '+' {
        start = 1;
    }
    let ghost d = decimal_body(s@);
    assert(d =~= s@.skip(start as int));
    if start == n {
        return None;
    }
    let mut v: u64 = 0;
    let mut i: usize = start;
    while i < n
        invariant
            n == s@.len(),
            start <= i <= n,
            d == s@.skip(start as int),
            d == decimal_body(s@),
            forall|j: int| 0 <= j < i - start ==> is_digit(#[trigger] d[j]),
            v == digits_value(d.take(i - start)),
            v <= max,
        decreases n - i,
    {
        let c = s.get_char(i);
        assert(d[i - start] == c);
        if c < '0' || c > '9' {
            assert(!is_digit(d[i - start]));
            return None;
        }
        let digit: u64 = ((c as u32) - ('0' as u32)) as u64;
        assert(digit == digit_value(c));
        let ghost t = d.take(i - start + 1);
        assert(t.drop_last() =~= d.take(i - start));
        assert(t.last() == c);
        if v > max / 10 {
            proof {
                assert(v * 10 > max) by (nonlinear_arith)
                    requires
                        v > max / 10,
                        max >= 0,
                ;
                if forall|j: int| 0 <= j < d.len() ==> is_digit(#[trigger] d[j]) {
                    lemma_digits_value_monotone(d, i - start + 1);
                }
            }
            return None;
        }
        let tens = v * 10;
        if digit > max || tens > max - digit {
            proof {
                assert(digits_value(t) == v * 10 + digit);
                if forall|j: int| 0 <= j < d.len() ==> is_digit(#[trigger] d[j]) {
                    lemma_digits_value_monotone(d, i - start + 1);
                }
            }
            return None;
        }
        v = tens + digit;
        i = i + 1;
    }
    assert(d.take(n - start) =~= d);
    Some(v)
}

/// The decimal digits of `n`, most significant first, without leading zeros
/// (`0` is written as one digit).
pub open spec fn decimal_digits(n: nat) -> Seq<char>
    decreases n,
{
    if n < 10 {
        seq![(n + '0' as nat) as char]
    } else {
        decimal_digits(n / 10).push(((n % 10) + '0' as nat) as char)
    }
}

/// Writes `n` in decimal, as `format!("{}", n)` does.
pub fn decimal_string(n: u64) -> (r: String)
    ensures
        r@ == decimal_digits(n as nat),
{
    let mut digits: Vec<char> = Vec::new();
    let mut m: u64 = n;
    let ghost mut shown: Seq<char> = Seq::empty();
    // Collect the digits from the least significant one.
    while m >= 10
        invariant
            decimal_digits(n as nat) == decimal_digits(m as nat) + shown,
            digits@ == shown.reverse(),
        decreases m,
    {
        let c = char_of_digit(m % 10);
        proof {
            assert(decimal_digits(m as nat) == decimal_digits((m / 10) as nat).push(c));
            assert(decimal_digits((m / 10) as nat) + (seq![c] + shown) =~= decimal_digits((m / 10) as nat).push(c) + shown);
        }
        digits.push(c);
        proof {
            shown = seq![c] + shown;
            assert(digits@ =~= shown.reverse());
        }
        m = m / 10;
    }
    let c = char_of_digit(m);
    proof {
        assert(decimal_digits(m as nat) == seq![c]);
    }
    digits.push(c);
    proof {
        shown = seq![c] + shown;
        assert(digits@ =~= shown.reverse());
    }
    let mut out = String::new();
    let mut k: usize = digits.len();
    while k > 0
        invariant
            k <= digits@.len(),
            digits@ == shown.reverse(),
            decimal_digits(n as nat) == shown,
            out@ == shown.take(digits@.len() - k),
        decreases k,
    {
        k = k - 1;
        push_char(&mut out, digits[k]);
        proof {
            assert(shown.take(digits@.len() - k) =~= shown.take(digits@.len() - k - 1).push(digits@[k as int]));
        }
    }
    assert(shown.take(digits@.len() as int) =~= shown);
    out
}

proof fn lemma_decimal_digits(n: nat)
    ensures
        decimal_digits(n).len() > 0,
        forall|i: int| 0 <= i < decimal_digits(n).len() ==> is_digit(#[trigger] decimal_digits(n)[i]),
        digits_value(decimal_digits(n)) == n,
    decreases n,
{
    if n >= 10 {
        lemma_decimal_digits(n / 10);
        let p = decimal_digits(n / 10);
        let d = decimal_digits(n);
        assert(d.drop_last() =~= p);
        assert forall|i: int| 0 <= i < d.len() implies is_digit(#[trigger] d[i]) by {
            if i < p.len() {
                assert(d[i] == p[i]);
            }
        }
        let c = ((n % 10) + '0' as nat) as char;
        assert(d.last() == c);
        assert(c as int == (n % 10) + 48);
        assert(digit_value(c) == n % 10);
        assert(digits_value(d) == digits_value(p) * 10 + digit_value(c));
        assert(n == (n / 10) * 10 + n % 10);
    } else {
        let c = (n + '0' as nat) as char;
        assert(c as int == n + 48);
        assert(decimal_digits(n) =~= seq![c]);
        assert(seq![c].drop_last() =~= Seq::<char>::empty());
        assert(digits_value(Seq::<char>::empty()) == 0);
        assert(digits_value(seq![c]) == digit_value(c));
    }
}

/// Reading back the decimal text of a number gives the number, for every
/// number up to the largest value of the type it is read as.
pub proof fn law_decimal_roundtrip(n: nat, max: int)
    requires
        n <= max,
    ensures
        parsed_unsigned(decimal_digits(n), max) == Some(n as int),
{
    lemma_decimal_digits(n);
    let d = decimal_digits(n);
    assert(is_digit(d[0]));
    assert(decimal_body(d) == d);
}

fn char_of_digit(d: u64) -> (c: char)
    requires
        d < 10,
    ensures
        c == (d + '0' as nat) as char,
{
    if d == 0 { '0' } else if d == 1 { '1' } else if d == 2 { '2' } else if d == 3 { '3' } else if d == 4 { '4' }
    else if d == 5 { '5' } else if d == 6 { '6' } else if d == 7 { '7' } else if d == 8 { '8' } else { '9' }
}

} // verus!
