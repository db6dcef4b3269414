//! Decimal rendering of integers, as `{}` formatting writes them.
use vstd::prelude::*;

verus! {

/// The character of a decimal digit.
pub open spec fn digit_char(d: nat) -> char {
    if d == 0 { '0' }
    else if d == 1 { '1' }
    else if d == 2 { '2' }
    else if d == 3 { '3' }
    else if d == 4 { '4' }
    else if d == 5 { '5' }
    else if d == 6 { '6' }
    else if d == 7 { '7' }
    else if d == 8 { '8' }
    else { '9' }
}

/// The decimal digits of a natural number, most significant first, with no
/// leading zeros (zero itself is "0").
pub open spec fn nat_text(n: nat) -> Seq<char>
    decreases n,
{
    if n < 10 {
        seq![digit_char(n)]
    } else {
        nat_text(n / 10).push(digit_char(n % 10))
    }
}

/// The decimal text of an integer: a minus sign before the digits of its
/// magnitude when it is negative.
pub open spec fn int_text(i: int) -> Seq<char> {
    if i < 0 {
        seq!['-'] + nat_text((-i) as nat)
    } else {
        nat_text(i as nat)
    }
}

fn digit_str(d: u64) -> (s: &'static str)
    requires
        d < 10,
    ensures
        s@ == seq![digit_char(d as nat)],
{
    proof {
        reveal_strlit("0");
        reveal_strlit("1");
        reveal_strlit("2");
        reveal_strlit("3");
        reveal_strlit("4");
        reveal_strlit("5");
        reveal_strlit("6");
        reveal_strlit("7");
        reveal_strlit("8");
        reveal_strlit("9");
    }
    if d == 0 { "0" }
    else if d == 1 { "1" }
    else if d == 2 { "2" }
    else if d == 3 { "3" }
    else if d == 4 { "4" }
    else if d == 5 { "5" }
    else if d == 6 { "6" }
    else if d == 7 { "7" }
    else if d == 8 { "8" }
    else { "9" }
}

/// Appends the decimal digits of `n` to `out`.
pub fn push_nat(out: &mut String, n: u64)
    ensures
        final(out)@ == old(out)@ + nat_text(n as nat),
    decreases n,
{
    if n >= 10 {
        push_nat(out, n / 10);
        out.append(digit_str(n % 10));
        assert(old(out)@ + nat_text(n as nat) =~= old(out)@ + nat_text((n / 10) as nat) + seq![digit_char((n % 10) as nat)]);
    } else {
        out.append(digit_str(n));
    }
}

/// Appends the decimal text of `i` to `out`.
pub fn push_int(out: &mut String, i: i64)
    ensures
        final(out)@ == old(out)@ + int_text(i as int),
{
    if i < 0 {
        proof { reveal_strlit("-"); }
        out.append("-");
        let magnitude: u64 = if i == i64::MIN { 9223372036854775808u64 } else { (-i) as u64 };
        push_nat(out, magnitude);
        assert(old(out)@ + int_text(i as int) =~= old(out)@ + seq!['-'] + nat_text(magnitude as nat));
    } else {
        push_nat(out, i as u64);
    }
}

/// The decimal text of `n`, as a new string.
pub fn nat_to_string(n: u64) -> (s: String)
    ensures
        s@ == nat_text(n as nat),
{
    let mut s = String::new();
    push_nat(&mut s, n);
    assert(s@ =~= nat_text(n as nat));
    s
}

/// Whether a byte is an ASCII decimal digit.
pub open spec fn is_digit_byte(b: u8) -> bool {
    48 <= b <= 57
}

/// The value of a string of decimal digits.
pub open spec fn digits_value(b: Seq<u8>) -> int
    decreases b.len(),
{
    if b.len() == 0 {
        0
    } else {
        digits_value(b.drop_last()) * 10 + (b.last() - 48)
    }
}

/// The digits of a decimal integer: the text without its sign.
pub open spec fn unsigned_part(b: Seq<u8>) -> Seq<u8> {
    if b.len() > 0 && (b[0] == 45u8 || b[0] == 43u8) {
        b.drop_first()
    } else {
        b
    }
}

/// The `i32` that a decimal text stands for, as `str::parse::<i32>` reads
/// it: an optional sign, then one digit or more; `None` for any other text
/// and for a value out of the range of `i32`.
pub open spec fn decimal_i32(b: Seq<u8>) -> Option<i32> {
    let body = unsigned_part(b);
    let v = if b.len() > 0 && b[0] == 45u8 { -digits_value(body) } else { digits_value(body) };
    if body.len() == 0 || !(forall|i: int| 0 <= i < body.len() ==> is_digit_byte(#[trigger] body[i])) {
        None
    } else if i32::MIN <= v <= i32::MAX {
        Some(v as i32)
    } else {
        None
    }
}

proof fn lemma_digits_value_nonnegative(b: Seq<u8>)
    requires
        forall|i: int| 0 <= i < b.len() ==> is_digit_byte(#[trigger] b[i]),
    ensures
        digits_value(b) >= 0,
    decreases b.len(),
{
    if b.len() > 0 {
        let s = b.drop_last();
        assert forall|i: int| 0 <= i < s.len() implies is_digit_byte(#[trigger] s[i]) by {
            assert(s[i] == b[i]);
        }
        lemma_digits_value_nonnegative(s);
        assert(is_digit_byte(b[b.len() - 1]));
    }
}

/// Reads a decimal `i32` from a text, as `str::parse::<i32>` does.
pub fn parse_i32(text: &str) -> (r: Option<i32>)
    ensures
        r == decimal_i32(vstd::utf8::encode_utf8(text@)),
{
    let b = text.as_bytes();
    assert(b@ == vstd::utf8::encode_utf8(text@));
    let n = b.len();
    let negative = n > 0 && b[0] == 45u8;
    let start: usize = if n > 0 && (b[0] == 45u8 || b[0] == 43u8) { 1 } else { 0 };
    let ghost body = unsigned_part(b@);
    assert(body =~= b@.subrange(start as int, n as int));
    if start == n {
        return None;
    }
    let cap: i64 = 2147483649;
    let mut acc: i64 = 0;
    let mut i: usize = start;
    while i < n
        invariant
            start <= i <= n,
            n == b@.len(),
            body =~= b@.subrange(start as int, n as int),
            body == unsigned_part(b@),
            b@ == vstd::utf8::encode_utf8(text@),
            negative == (b@.len() > 0 && b@[0] == 45u8),
            forall|k: int| 0 <= k < i - start ==> is_digit_byte(#[trigger] body[k]),
            acc == (if digits_value(body.take(i - start)) < cap { digits_value(body.take(i - start)) } else { cap as int }),
            digits_value(body.take(i - start)) >= 0,
            0 <= acc <= cap,
            cap == 2147483649,
        decreases n - i,
    {
        let d = b[i];
        assert(body[i - start] == b@[i as int]);
        if d < 48u8 || d > 57u8 {
            assert(!is_digit_byte(body[i - start]));
            assert(!(forall|k: int| 0 <= k < body.len() ==> is_digit_byte(#[trigger] body[k])));
            assert(body == unsigned_part(b@));
            assert(decimal_i32(b@) is None);
            return None;
        }
        proof {
            let p = body.take(i - start);
            let q = body.take(i + 1 - start);
            assert(q.drop_last() =~= p);
            assert(q.last() == d);
        }
        let next = acc * 10 + (d - 48u8) as i64;
        acc = if next < cap { next } else { cap };
        i = i + 1;
        assert(is_digit_byte(body[i - 1 - start]));
    }
    proof {
        assert(body.take(n - start) =~= body);
        assert(forall|k: int| 0 <= k < body.len() ==> is_digit_byte(#[trigger] body[k]));
    }
    let value: i64 = if negative { -acc } else { acc };
    if value < -2147483648i64 || value > 2147483647i64 {
        None
    } else {
        Some(value as i32)
    }
}

} // verus!
