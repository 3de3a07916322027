//! Decimal numbers as text: reading integers, recognising the literals of
//! floating-point numbers, and writing integers.
use vstd::prelude::*;

verus! {

/// Whether `c` is one of the ASCII digits.
pub open spec fn is_digit(c: char) -> bool {
    '0' <= c && c <= '9'
}

/// The number that the digit `c` stands for.
pub open spec fn digit_value(c: char) -> int {
    c as int - '0' as int
}

/// Whether every character of `s` is an ASCII digit.
pub open spec fn all_digits(s: Seq<char>) -> bool {
    forall|i: int| 0 <= i < s.len() ==> is_digit(#[trigger] s[i])
}

/// The number that the digits of `s` write in base ten; `0` for no digits.
pub open spec fn digits_value(s: Seq<char>) -> int
    decreases s.len(),
{
    if s.len() == 0 {
        0
    } else {
        digits_value(s.drop_last()) * 10 + digit_value(s.last())
    }
}

/// Whether `s` begins with a sign that a number of this kind may carry:
/// `+` always, `-` where `signed`.
pub open spec fn has_sign(s: Seq<char>, signed: bool) -> bool {
    s.len() > 0 && (s[0] == '+' || (signed && s[0] == '-'))
}

/// The integer that `s` writes: an optional sign and then one digit or
/// more, nothing else. `None` for any other text.
pub open spec fn integer_spec(s: Seq<char>, signed: bool) -> Option<int> {
    let body = if has_sign(s, signed) {
        s.drop_first()
    } else {
        s
    };
    if body.len() > 0 && all_digits(body) {
        if has_sign(s, signed) && s[0] == '-' {
            Some(-digits_value(body))
        } else {
            Some(digits_value(body))
        }
    } else {
        None
    }
}

/// The integer that `s` writes, where it lies between `lo` and `hi`.
pub open spec fn bounded_spec(s: Seq<char>, signed: bool, lo: int, hi: int) -> Option<int> {
    match integer_spec(s, signed) {
        Some(v) => if lo <= v <= hi {
            Some(v)
        } else {
            None
        },
        None => None,
    }
}

/// The signed 16-bit integer that `s` writes, if it writes one.
pub open spec fn i16_spec(s: Seq<char>) -> Option<i16> {
    match bounded_spec(s, true, i16::MIN as int, i16::MAX as int) {
        Some(v) => Some(v as i16),
        None => None,
    }
}

/// The unsigned 8-bit integer that `s` writes, if it writes one.
pub open spec fn u8_spec(s: Seq<char>) -> Option<u8> {
    match bounded_spec(s, false, 0, u8::MAX as int) {
        Some(v) => Some(v as u8),
        None => None,
    }
}

/// The number of digits that `s` begins with.
pub open spec fn digit_run(s: Seq<char>) -> int
    decreases s.len(),
{
    if s.len() > 0 && is_digit(s[0]) {
        1 + digit_run(s.drop_first())
    } else {
        0
    }
}

/// Whether `c` is the lower-case letter `l` or its upper-case form.
pub open spec fn same_letter(c: char, l: char) -> bool {
    c == l || ('A' <= c && c <= 'Z' && c as int + 32 == l as int)
}

/// Whether `s` is the lower-case word `word`, in any mix of cases.
pub open spec fn is_word(s: Seq<char>, word: Seq<char>) -> bool {
    s.len() == word.len() && forall|i: int| 0 <= i < s.len() ==> same_letter(s[i], word[i])
}

/// Whether `s` is an exponent: `e` or `E`, an optional sign, and then one
/// digit or more.
pub open spec fn is_exponent(s: Seq<char>) -> bool {
    s.len() > 0 && (s[0] == 'e' || s[0] == 'E') && {
        let u = s.drop_first();
        let v = if has_sign(u, true) {
            u.drop_first()
        } else {
            u
        };
        v.len() > 0 && digit_run(v) == v.len()
    }
}

/// Whether `s` is an unsigned decimal number: digits with at most one
/// point among them, at least one digit in all, and then an optional
/// exponent.
pub open spec fn is_number(s: Seq<char>) -> bool {
    let i = digit_run(s);
    let point = i < s.len() && s[i] == '.';
    let j = if point {
        digit_run(s.skip(i + 1))
    } else {
        0
    };
    let end = if point {
        i + 1 + j
    } else {
        i
    };
    i + j > 0 && (end == s.len() || is_exponent(s.skip(end)))
}

/// Whether `s` is the literal of a floating-point number: an optional
/// sign, and then `inf`, `infinity` or `nan` in any mix of cases, or a
/// decimal number.
pub open spec fn is_float_literal(s: Seq<char>) -> bool {
    let t = if has_sign(s, true) {
        s.drop_first()
    } else {
        s
    };
    is_word(t, "inf"@) || is_word(t, "infinity"@) || is_word(t, "nan"@) || is_number(t)
}

/// The character that writes the digit `d`.
pub open spec fn digit_char(d: int) -> char {
    ('0' as int + d) as char
}

/// The digits of `n` in base ten, without leading zeros.
pub open spec fn nat_text(n: nat) -> Seq<char>
    decreases n,
{
    if n < 10 {
        seq![digit_char(n as int)]
    } else {
        nat_text(n / 10).push(digit_char((n % 10) as int))
    }
}

/// The integer `i` in base ten, with `-` in front where it is negative.
pub open spec fn int_text(i: int) -> Seq<char> {
    if i < 0 {
        seq!['-'] + nat_text((-i) as nat)
    } else {
        nat_text(i as nat)
    }
}

proof fn lemma_digits_prefix(s: Seq<char>, k: int)
    requires
        all_digits(s),
        0 <= k <= s.len(),
    ensures
        0 <= digits_value(s.take(k)) <= digits_value(s),
    decreases s.len() - k,
{
    if k == s.len() {
        assert(s.take(k) =~= s);
        lemma_digits_nonnegative(s);
    } else {
        lemma_digits_prefix(s, k + 1);
        let t = s.take(k + 1);
        assert(t.drop_last() =~= s.take(k));
        assert(t.last() == s[k]);
        assert(is_digit(s[k]));
        lemma_digits_nonnegative(s.take(k));
    }
}

proof fn lemma_digits_nonnegative(s: Seq<char>)
    requires
        all_digits(s),
    ensures
        0 <= digits_value(s),
    decreases s.len(),
{
    if s.len() > 0 {
        let t = s.drop_last();
        assert forall|i: int| 0 <= i < t.len() implies is_digit(#[trigger] t[i]) by {
            assert(t[i] == s[i]);
        }
        lemma_digits_nonnegative(t);
        assert(is_digit(s.last()));
    }
}

proof fn lemma_digit_run(s: Seq<char>, k: int)
    requires
        0 <= k <= s.len(),
        forall|i: int| 0 <= i < k ==> is_digit(#[trigger] s[i]),
        k == s.len() || !is_digit(s[k]),
    ensures
        digit_run(s) == k,
    decreases k,
{
    if k > 0 {
        let t = s.drop_first();
        assert forall|i: int| 0 <= i < k - 1 implies is_digit(#[trigger] t[i]) by {
            assert(t[i] == s[i + 1]);
        }
        lemma_digit_run(t, k - 1);
    }
}

/// The digits that write a number are digits, at least one, and write that
/// number.
pub proof fn lemma_nat_text(n: nat)
    ensures
        nat_text(n).len() > 0,
        all_digits(nat_text(n)),
        digits_value(nat_text(n)) == n,
    decreases n,
{
    if n < 10 {
        let t = nat_text(n);
        assert(t.drop_last() =~= Seq::<char>::empty());
        assert(digits_value(t.drop_last()) == 0);
    } else {
        lemma_nat_text(n / 10);
        let t = nat_text(n);
        assert(t.drop_last() =~= nat_text(n / 10));
        assert(t.last() == digit_char((n % 10) as int));
        assert forall|i: int| 0 <= i < t.len() implies is_digit(#[trigger] t[i]) by {
            if i < t.len() - 1 {
                assert(t[i] == nat_text(n / 10)[i]);
            }
        }
    }
}

/// An integer that is written and read again is the same integer. What is
/// written begins with a digit or with `-`, and consists of digits after
/// that.
pub proof fn lemma_integer_round_trip(i: i16)
    ensures
        i16_spec(int_text(i as int)) == Some(i),
        int_text(i as int).len() > 0,
        is_digit(int_text(i as int)[0]) || int_text(i as int)[0] == '-',
        forall|k: int| 1 <= k < int_text(i as int).len() ==> is_digit(int_text(i as int)[k]),
{
    let s = int_text(i as int);
    if i < 0 {
        let digits = nat_text((-i) as nat);
        lemma_nat_text((-i) as nat);
        assert(s[0] == '-');
        assert(s.drop_first() =~= digits);
    } else {
        lemma_nat_text(i as nat);
        assert(is_digit(s[0]));
    }
}

/// Whether `c` is one of the ASCII digits.
pub fn is_digit_char(c: char) -> (r: bool)
    ensures
        r == is_digit(c),
{
    '0' <= c && c <= '9'
}

/// Reads an integer between `lo` and `hi` from `s`.
fn parse_bounded(s: &str, signed: bool, lo: i32, hi: i32) -> (r: Option<i32>)
    requires
        -100000 <= lo <= 0 <= hi <= 100000,
    ensures
        match r {
            Some(v) => bounded_spec(s@, signed, lo as int, hi as int) == Some(v as int),
            None => bounded_spec(s@, signed, lo as int, hi as int) is None,
        },
{
    let n = s.unicode_len();
    if n == 0 {
        return None;
    }
    let first = s.get_char(0);
    let negative = signed && first == '-';
    let start: usize = if first == '+' || negative {
        1
    } else {
        0
    };
    let ghost body = s@.skip(start as int);
    assert(body =~= if has_sign(s@, signed) {
        s@.drop_first()
    } else {
        s@
    });
    if start == n {
        return None;
    }
    let mut acc: i32 = 0;
    let mut i: usize = start;
    proof {
        assert(body.take(0) =~= Seq::<char>::empty());
    }
    while i < n
        invariant
            start <= i <= n,
            n == s@.len(),
            body == s@.skip(start as int),
            body == if has_sign(s@, signed) {
                s@.drop_first()
            } else {
                s@
            },
            negative == (has_sign(s@, signed) && s@[0] == '-'),
            -100000 <= lo <= 0 <= hi <= 100000,
            forall|k: int| 0 <= k < i - start ==> is_digit(#[trigger] body[k]),
            acc == digits_value(body.take(i - start)),
            0 <= acc <= 100000,
        decreases n - i,
    {
        let c = s.get_char(i);
        assert(c == body[i - start]);
        if !is_digit_char(c) {
            return None;
        }
        let d: i32 = (c as u32 - '0' as u32) as i32;
        proof {
            let t = body.take(i - start + 1);
            assert(t.drop_last() =~= body.take(i - start));
            assert(t.last() == c);
        }
        acc = acc * 10 + d;
        i += 1;
        if acc > 100000 {
            proof {
                if all_digits(body) {
                    lemma_digits_prefix(body, i - start);
                }
            }
            return None;
        }
    }
    proof {
        assert(body.take(n - start) =~= body);
    }
    let v: i32 = if negative {
        -acc
    } else {
        acc
    };
    if lo <= v && v <= hi {
        Some(v)
    } else {
        None
    }
}

/// Reads a signed 16-bit integer: an optional `+` or `-`, then one decimal
/// digit or more. `None` for any other text, and where the number does not
/// fit.
pub fn parse_i16(s: &str) -> (r: Option<i16>)
    ensures
        r == i16_spec(s@),
{
    match parse_bounded(s, true, -32768, 32767) {
        Some(v) => Some(v as i16),
        None => None,
    }
}

/// Reads an unsigned 8-bit integer: an optional `+`, then one decimal digit
/// or more. `None` for any other text, and where the number does not fit.
pub fn parse_u8(s: &str) -> (r: Option<u8>)
    ensures
        r == u8_spec(s@),
{
    match parse_bounded(s, false, 0, 255) {
        Some(v) => Some(v as u8),
        None => None,
    }
}

/// The number of digits that `s` holds from its character `from` on, up to
/// the first character that is no digit.
fn count_digits(s: &str, from: usize) -> (k: usize)
    requires
        from <= s@.len(),
    ensures
        k == digit_run(s@.skip(from as int)),
        from + k <= s@.len(),
{
    let n = s.unicode_len();
    let mut i: usize = from;
    let ghost t = s@.skip(from as int);
    while i < n && is_digit_char(s.get_char(i))
        invariant
            from <= i <= n,
            n == s@.len(),
            t == s@.skip(from as int),
            forall|k: int| 0 <= k < i - from ==> is_digit(#[trigger] t[k]),
        decreases n - i,
    {
        i += 1;
    }
    proof {
        if i < n {
            assert(t[i - from] == s@[i as int]);
        }
        lemma_digit_run(t, i - from);
    }
    i - from
}

/// Whether `c` is the lower-case letter `l` or its upper-case form.
fn is_same_letter(c: char, l: char) -> (r: bool)
    ensures
        r == same_letter(c, l),
{
    c == l || ('A' <= c && c <= 'Z' && c as u32 + 32 == l as u32)
}

/// Whether `s`, from its character `from` on, is the lower-case word
/// `word` in any mix of cases.
fn is_word_at(s: &str, from: usize, word: &str) -> (r: bool)
    requires
        from <= s@.len(),
    ensures
        r == is_word(s@.skip(from as int), word@),
{
    let n = s.unicode_len();
    let m = word.unicode_len();
    if n - from != m {
        return false;
    }
    let ghost t = s@.skip(from as int);
    let mut i: usize = 0;
    while i < m
        invariant
            i <= m,
            from + m == n,
            n == s@.len(),
            m == word@.len(),
            t == s@.skip(from as int),
            forall|k: int| 0 <= k < i ==> same_letter(t[k], word@[k]),
        decreases m - i,
    {
        assert(t[i as int] == s@[from + i]);
        if !is_same_letter(s.get_char(from + i), word.get_char(i)) {
            return false;
        }
        i += 1;
    }
    true
}

/// Whether `s`, from its character `from` on, is an exponent.
fn is_exponent_at(s: &str, from: usize) -> (r: bool)
    requires
        from < s@.len(),
    ensures
        r == is_exponent(s@.skip(from as int)),
{
    let n = s.unicode_len();
    let ghost t = s@.skip(from as int);
    let c = s.get_char(from);
    assert(t[0] == c);
    if c != 'e' && c != 'E' {
        return false;
    }
    let ghost u = t.drop_first();
    assert(u =~= s@.skip(from + 1));
    let mut at: usize = from + 1;
    if at < n {
        let sign = s.get_char(at);
        assert(u[0] == sign);
        if sign == '+' || sign == '-' {
            at += 1;
            assert(u.drop_first() =~= s@.skip(at as int));
        }
    }
    if at == n {
        return false;
    }
    let k = count_digits(s, at);
    k == n - at
}

/// Whether `s`, from its character `from` on, is an unsigned decimal
/// number.
fn is_number_at(s: &str, from: usize) -> (r: bool)
    requires
        from <= s@.len(),
    ensures
        r == is_number(s@.skip(from as int)),
{
    let n = s.unicode_len();
    let ghost t = s@.skip(from as int);
    let i = count_digits(s, from);
    let mut j: usize = 0;
    let mut end: usize = from + i;
    if end < n {
        assert(t[i as int] == s@[from + i]);
        if s.get_char(end) == '.' {
            assert(t.skip(i + 1) =~= s@.skip(from + i + 1));
            j = count_digits(s, end + 1);
            end = end + 1 + j;
        }
    }
    if i + j == 0 {
        return false;
    }
    if end == n {
        return true;
    }
    assert(t.skip(end - from) =~= s@.skip(end as int));
    is_exponent_at(s, end)
}

/// Whether `s` is the literal of a floating-point number: an optional
/// sign, and then `inf`, `infinity` or `nan` in any mix of cases, or digits
/// with at most one point among them, at least one digit in all, and an
/// optional exponent.
pub fn is_float(s: &str) -> (r: bool)
    ensures
        r == is_float_literal(s@),
{
    let n = s.unicode_len();
    let mut from: usize = 0;
    if n > 0 {
        let c = s.get_char(0);
        if c == '+' || c == '-' {
            from = 1;
        }
    }
    assert(s@.skip(from as int) =~= if has_sign(s@, true) {
        s@.drop_first()
    } else {
        s@
    });
    is_word_at(s, from, "inf") || is_word_at(s, from, "infinity") || is_word_at(s, from, "nan")
        || is_number_at(s, from)
}

/// The character that writes the digit `d`.
fn digit_of(d: u32) -> (c: char)
    requires
        d < 10,
    ensures
        c == digit_char(d as int),
{
    if d == 0 {
        '0'
    } else if d == 1 {
        '1'
    } else if d == 2 {
        '2'
    } else if d == 3 {
        '3'
    } else if d == 4 {
        '4'
    } else if d == 5 {
        '5'
    } else if d == 6 {
        '6'
    } else if d == 7 {
        '7'
    } else if d == 8 {
        '8'
    } else {
        '9'
    }
}

/// Appends the digits of `n` to `out`.
fn push_nat(out: &mut String, n: u32)
    ensures
        final(out)@ == old(out)@ + nat_text(n as nat),
    decreases n,
{
    if n >= 10 {
        push_nat(out, n / 10);
    }
    let ghost mid = out@;
    out.push(digit_of(n % 10));
    proof {
        if n >= 10 {
            assert(mid.push(digit_char((n % 10) as int)) =~= old(out)@ + nat_text(n as nat));
        } else {
            assert(mid.push(digit_char(n as int)) =~= old(out)@ + nat_text(n as nat));
        }
    }
}

/// The integer `i` written in base ten.
pub fn i16_to_string(i: i16) -> (out: String)
    ensures
        out@ == int_text(i as int),
{
    let mut out = String::new();
    if i < 0 {
        out.push('-');
        push_nat(&mut out, (-(i as i32)) as u32);
    } else {
        push_nat(&mut out, i as u32);
        assert(Seq::<char>::empty() + nat_text(i as nat) =~= nat_text(i as nat));
    }
    out
}

} // verus!
