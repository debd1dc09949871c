//! Document ids: decimal rendering of the server-assigned numeric ids, and
//! the parse used to recover the numeric value of a stored key. A key counts
//! toward id assignment exactly when it parses as an unsigned 64-bit decimal
//! (an optional leading `+` is accepted, since stored keys may carry one).
use vstd::prelude::*;

verus! {

/// The numeric value of a digit character (meaningful for '0'..'9').
pub open spec fn digit_val(c: char) -> int {
    c as int - 48
}

/// True when `c` is a decimal digit.
pub open spec fn is_digit(c: char) -> bool {
    48 <= c as int <= 57
}

/// True when `s` is one or more decimal digits.
pub open spec fn all_digits(s: Seq<char>) -> bool {
    s.len() > 0 && forall|i: int| 0 <= i < s.len() ==> is_digit(#[trigger] s[i])
}

/// The value of a digit string, most significant digit first.
pub open spec fn dec_val(s: Seq<char>) -> int
    decreases s.len(),
{
    if s.len() == 0 {
        0
    } else {
        dec_val(s.drop_last()) * 10 + digit_val(s.last())
    }
}

/// The digit sequence a key must be, after an optional leading '+'.
pub open spec fn key_digits(s: Seq<char>) -> Seq<char> {
    if s.len() > 0 && s[0] == '+' {
        s.drop_first()
    } else {
        s
    }
}

/// The numeric value of a key, when it parses as a u64: digits (with an
/// optional leading '+'), value at most `u64::MAX`.
pub open spec fn key_u64(s: Seq<char>) -> Option<u64> {
    if all_digits(key_digits(s)) && dec_val(key_digits(s)) <= u64::MAX {
        Some(dec_val(key_digits(s)) as u64)
    } else {
        None
    }
}

/// The character of a digit value (meaningful for 0..9).
pub open spec fn digit_char(d: int) -> char {
    if d == 0 { '0' }
    else if d == 1 { '1' }
    else if d == 2 { '2' }
    else if d == 3 { '3' }
    else if d == 4 { '4' }
    else if d == 5 { '5' }
    else if d == 6 { '6' }
    else if d == 7 { '7' }
    else if d == 8 { '8' }
    else { '9' }
}

/// The decimal rendering of `n`, without leading zeros (except "0" itself).
pub open spec fn dec_str(n: int) -> Seq<char>
    decreases n,
{
    if n < 10 {
        seq![digit_char(n)]
    } else {
        dec_str(n / 10) + seq![digit_char(n % 10)]
    }
}

/// A decimal rendering is all digits.
pub proof fn lemma_dec_str_digits(n: int)
    requires
        n >= 0,
    ensures
        all_digits(dec_str(n)),
    decreases n,
{
    if n < 10 {
        assert(is_digit(dec_str(n)[0]));
    } else {
        lemma_dec_str_digits(n / 10);
        let s = dec_str(n);
        assert forall|i: int| 0 <= i < s.len() implies is_digit(#[trigger] s[i]) by {
            if i < s.len() - 1 {
                assert(s[i] == dec_str(n / 10)[i]);
            } else {
                assert(s[i] == digit_char(n % 10));
            }
        }
    }
}

/// Appending a digit multiplies the value by ten and adds the digit.
pub proof fn lemma_dec_val_push(s: Seq<char>, c: char)
    ensures
        dec_val(s.push(c)) == dec_val(s) * 10 + digit_val(c),
{
    assert(s.push(c).drop_last() =~= s);
    assert(s.push(c).last() == c);
}

/// Reading back a decimal rendering gives the value it renders.
pub proof fn lemma_dec_val_of_dec_str(n: int)
    requires
        n >= 0,
    ensures
        dec_val(dec_str(n)) == n,
    decreases n,
{
    if n < 10 {
        let s = dec_str(n);
        assert(s.drop_last() =~= Seq::<char>::empty());
        assert(dec_val(s) == dec_val(s.drop_last()) * 10 + digit_val(s.last()));
        assert(digit_val(digit_char(n)) == n);
    } else {
        lemma_dec_val_of_dec_str(n / 10);
        assert(dec_str(n / 10) + seq![digit_char(n % 10)] =~= dec_str(n / 10).push(
            digit_char(n % 10),
        ));
        lemma_dec_val_push(dec_str(n / 10), digit_char(n % 10));
        assert(digit_val(digit_char(n % 10)) == n % 10);
        assert(dec_val(dec_str(n)) == (n / 10) * 10 + n % 10);
    }
}

/// A decimal rendering never starts with '+', so the rendering of an id in
/// range parses back to the id itself.
pub proof fn lemma_key_u64_of_dec_str(n: u64)
    ensures
        key_u64(dec_str(n as int)) == Some(n),
{
    let s = dec_str(n as int);
    lemma_dec_str_digits(n as int);
    assert(s.len() > 0);
    assert(is_digit(s[0]));
    assert(s[0] != '+') by {
        assert(('+' as int) == 43);
    }
    assert(key_digits(s) == s);
    lemma_dec_val_of_dec_str(n as int);
}

/// A value only grows as more digits follow: the value of a digit string is
/// at least the value of any of its prefixes.
pub proof fn lemma_dec_val_prefix_le(s: Seq<char>, i: int)
    requires
        0 <= i <= s.len(),
        forall|j: int| 0 <= j < s.len() ==> is_digit(#[trigger] s[j]),
    ensures
        dec_val(s.take(i)) <= dec_val(s),
        dec_val(s) >= 0,
    decreases s.len(),
{
    if s.len() == 0 {
        assert(s.take(i) =~= s);
    } else {
        let sd = s.drop_last();
        assert(forall|j: int| 0 <= j < sd.len() ==> is_digit(#[trigger] sd[j]));
        lemma_dec_val_prefix_le(sd, if i <= sd.len() { i } else { sd.len() as int });
        assert(is_digit(s.last()));
        assert(dec_val(s) == dec_val(sd) * 10 + digit_val(s.last()));
        assert(dec_val(sd) * 10 >= dec_val(sd)) by (nonlinear_arith)
            requires dec_val(sd) >= 0;
        if i <= sd.len() {
            assert(s.take(i) =~= sd.take(i));
        } else {
            assert(s.take(i) =~= s);
        }
    }
}

/// Parses `s` as an unsigned 64-bit decimal, exactly as `key_u64` states.
pub fn parse_u64(s: &str) -> (r: Option<u64>)
    ensures
        r == key_u64(s@),
{
    let len = s.unicode_len();
    let mut start: usize = 0;
    if len > 0 && s.get_char(0) == '+' {
        start = 1;
    }
    if start >= len {
        proof {
            assert(key_digits(s@).len() == 0);
        }
        return None;
    }
    let ghost digits = key_digits(s@);
    proof {
        assert(digits =~= s@.subrange(start as int, len as int));
    }
    let mut val: u64 = 0;
    let mut i: usize = start;
    while i < len
        invariant
            start <= i <= len,
            len == s@.len(),
            digits == s@.subrange(start as int, len as int),
            forall|j: int| 0 <= j < i - start ==> is_digit(#[trigger] digits[j]),
            val == dec_val(digits.take(i - start)),
        decreases len - i,
    {
        let c = s.get_char(i);
        let u = c as u32;
        if u < 48 || u > 57 {
            proof {
                assert(digits[i - start] == c);
                assert(!is_digit(c));
            }
            return None;
        }
        let d = (u - 48) as u64;
        proof {
            assert(digits[i - start] == c);
            assert(digits.take(i - start + 1).drop_last() =~= digits.take(i - start));
            assert(digits.take(i - start + 1).last() == c);
        }
        // the next value would be val * 10 + d; refuse it if it overflows
        if val > (u64::MAX - d) / 10 {
            proof {
                let t = digits.take(i - start + 1);
                assert(dec_val(t) == val * 10 + d);
                assert(val * 10 + d > u64::MAX) by (nonlinear_arith)
                    requires
                        val > (u64::MAX - d) / 10,
                        d <= 9;
                if all_digits(digits) {
                    lemma_dec_val_prefix_le(digits, i - start + 1);
                    assert(dec_val(t) <= dec_val(digits));
                }
            }
            return None;
        }
        val = val * 10 + d;
        i += 1;
    }
    proof {
        assert(digits.take(i - start) =~= digits);
        assert(all_digits(digits));
    }
    Some(val)
}

/// Renders `n` in decimal, exactly as `dec_str` states.
pub fn u64_to_dec(n: u64) -> (r: String)
    ensures
        r@ == dec_str(n as int),
{
    let mut buf: Vec<char> = Vec::new();
    push_dec(&mut buf, n);
    chars_to_string(&buf)
}

/// Appends the decimal rendering of `n` to `out`.
pub fn push_dec(out: &mut Vec<char>, n: u64)
    ensures
        final(out)@ == old(out)@ + dec_str(n as int),
    decreases n,
{
    if n < 10 {
        out.push(digit_to_char(n));
        proof {
            assert(old(out)@.push(digit_char(n as int)) =~= old(out)@ + dec_str(n as int));
        }
    } else {
        push_dec(out, n / 10);
        out.push(digit_to_char(n % 10));
        proof {
            assert((old(out)@ + dec_str(n as int / 10)).push(digit_char(n as int % 10)) =~= old(
                out,
            )@ + dec_str(n as int));
        }
    }
}

/// The character of a digit value.
pub fn digit_to_char(d: u64) -> (c: char)
    requires
        d < 10,
    ensures
        c == digit_char(d as int),
{
    match d {
        0 => '0',
        1 => '1',
        2 => '2',
        3 => '3',
        4 => '4',
        5 => '5',
        6 => '6',
        7 => '7',
        8 => '8',
        _ => '9',
    }
}

/// Relies on `String`'s `FromIterator<char>` implementation in std: collecting
/// characters yields the string of exactly those characters in order.
#[verifier::external_body]
pub fn chars_to_string(chars: &Vec<char>) -> (s: String)
    ensures
        s@ == chars@,
{
    chars.iter().collect()
}

} // verus!
