//! String and number helpers shared by the codec, the command-line parser and
//! the install bookkeeping: decimal parsing and formatting, big-endian length
//! fields, and joining string lists with a separator.

use vstd::prelude::*;
use vstd::utf8::{encode_utf8, decode_utf8, encode_utf8_decode_utf8};
use vstd::string::{StrSliceExecFns, StringExecFns};

verus! {

/// Character-for-character equality of two string slices, decided by
/// comparing their UTF-8 bytes.
pub fn str_eq(a: &str, b: &str) -> (r: bool)
    ensures
        r == (a@ == b@),
{
    proof {
        encode_utf8_decode_utf8(a@);
        encode_utf8_decode_utf8(b@);
    }
    let ab: &[u8] = a.as_bytes();
    let bb: &[u8] = b.as_bytes();
    if ab.len() != bb.len() {
        return false;
    }
    let n = ab.len();
    let mut i: usize = 0;
    while i < n
        invariant
            i <= n,
            n == ab@.len() == bb@.len(),
            ab@ == encode_utf8(a@),
            bb@ == encode_utf8(b@),
            forall|k: int| 0 <= k < i ==> ab@[k] == bb@[k],
        decreases n - i,
    {
        if ab[i] != bb[i] {
            assert(a@ != b@);
            return false;
        }
        i += 1;
    }
    proof {
        assert(ab@ =~= bb@);
        assert(decode_utf8(ab@) == decode_utf8(bb@));
    }
    true
}

/// The sequence closes with the given suffix.
pub open spec fn chars_ends_with(s: Seq<char>, suffix: Seq<char>) -> bool {
    suffix.len() <= s.len() && s.skip(s.len() - suffix.len()) == suffix
}

/// Strict lexicographic order on character sequences, by code point.
pub open spec fn chars_lt(a: Seq<char>, b: Seq<char>) -> bool
    decreases a.len(),
{
    if b.len() == 0 {
        false
    } else if a.len() == 0 {
        true
    } else if a[0] as u32 != b[0] as u32 {
        (a[0] as u32) < (b[0] as u32)
    } else {
        chars_lt(a.skip(1), b.skip(1))
    }
}

/// Decide `chars_lt` on two string slices.
pub fn str_lt(a: &str, b: &str) -> (r: bool)
    ensures
        r == chars_lt(a@, b@),
{
    let an = a.unicode_len();
    let bn = b.unicode_len();
    let mut i: usize = 0;
    assert(a@.skip(0) =~= a@);
    assert(b@.skip(0) =~= b@);
    while i < an && i < bn
        invariant
            i <= an,
            i <= bn,
            an == a@.len(),
            bn == b@.len(),
            forall|k: int| 0 <= k < i ==> a@[k] == b@[k],
            chars_lt(a@, b@) == chars_lt(a@.skip(i as int), b@.skip(i as int)),
        decreases an - i,
    {
        let ac = a.get_char(i);
        let bc = b.get_char(i);
        if (ac as u32) < (bc as u32) {
            return true;
        }
        if (ac as u32) > (bc as u32) {
            return false;
        }
        proof {
            let sa = a@.skip(i as int);
            let sb = b@.skip(i as int);
            assert(sa[0] == a@[i as int] && sb[0] == b@[i as int]);
            assert(sa.skip(1) =~= a@.skip(i + 1));
            assert(sb.skip(1) =~= b@.skip(i + 1));
            if ac as u32 == bc as u32 {
                assert(ac == bc) by {
                    vstd::utf8::char_u32_cast(ac, ac as u32);
                    vstd::utf8::char_u32_cast(bc, bc as u32);
                }
            }
        }
        i += 1;
    }
    assert(a@.skip(i as int).len() == 0 || b@.skip(i as int).len() == 0);
    an < bn
}

/// The characters of `parts` joined with `sep` between neighbours.
pub open spec fn join_chars(parts: Seq<Seq<char>>, sep: Seq<char>) -> Seq<char>
    decreases parts.len(),
{
    if parts.len() == 0 {
        Seq::empty()
    } else if parts.len() == 1 {
        parts[0]
    } else {
        join_chars(parts.drop_last(), sep) + sep + parts.last()
    }
}

/// The character for one decimal digit.
pub open spec fn digit_char(d: int) -> char {
    if d == 0 {
        '0'
    } else if d == 1 {
        '1'
    } else if d == 2 {
        '2'
    } else if d == 3 {
        '3'
    } else if d == 4 {
        '4'
    } else if d == 5 {
        '5'
    } else if d == 6 {
        '6'
    } else if d == 7 {
        '7'
    } else if d == 8 {
        '8'
    } else {
        '9'
    }
}

/// A number written in decimal, most significant digit first.
pub open spec fn dec_chars(n: int) -> Seq<char>
    decreases n,
{
    if n < 10 {
        seq![digit_char(n)]
    } else {
        dec_chars(n / 10) + seq![digit_char(n % 10)]
    }
}

/// One decimal digit as a string slice.
fn digit_str(d: u64) -> (r: &'static str)
    requires
        d < 10,
    ensures
        r@ == seq![digit_char(d as int)],
{
    proof {
        reveal_strlit("0");
        reveal_strlit("1");
        reveal_strlit("2");
        reveal_strlit("3");
        reveal_strlit("4");
        reveal_strlit("5");
        reveal_strlit("6");
        reveal_strlit("7");
        reveal_strlit("8");
        reveal_strlit("9");
    }
    let r = match d {
        0 => "0",
        1 => "1",
        2 => "2",
        3 => "3",
        4 => "4",
        5 => "5",
        6 => "6",
        7 => "7",
        8 => "8",
        _ => "9",
    };
    assert(r@ =~= seq![digit_char(d as int)]);
    r
}

/// Write a number in decimal.
pub fn u64_to_string(n: u64) -> (r: String)
    ensures
        r@ == dec_chars(n as int),
    decreases n,
{
    if n < 10 {
        digit_str(n).to_owned()
    } else {
        let mut front = u64_to_string(n / 10);
        front.append(digit_str(n % 10));
        assert(front@ =~= dec_chars(n as int));
        front
    }
}

/// An ASCII decimal digit byte.
pub open spec fn is_digit_byte(b: u8) -> bool {
    48 <= b <= 57
}

/// Every byte of the sequence is a decimal digit, and there is at least one.
pub open spec fn is_digit_seq(s: Seq<u8>) -> bool {
    s.len() > 0 && forall|i: int| 0 <= i < s.len() ==> is_digit_byte(#[trigger] s[i])
}

/// The value of a sequence of ASCII decimal digit bytes.
pub open spec fn digits_value(s: Seq<u8>) -> int
    decreases s.len(),
{
    if s.len() == 0 {
        0
    } else {
        digits_value(s.drop_last()) * 10 + (s.last() - 48)
    }
}

/// The decimal parse of a byte sequence, as `str::parse` for an integer type
/// reads it: an optional single `+` or `-` sign followed by one or more ASCII
/// digits. `None` when the shape is wrong; the range check is the caller's.
pub open spec fn parsed_decimal(s: Seq<u8>) -> Option<int> {
    if s.len() > 0 && (s[0] == 43 || s[0] == 45) {
        if is_digit_seq(s.skip(1)) {
            if s[0] == 45 {
                Some(-digits_value(s.skip(1)))
            } else {
                Some(digits_value(s.skip(1)))
            }
        } else {
            None
        }
    } else {
        if is_digit_seq(s) {
            Some(digits_value(s))
        } else {
            None
        }
    }
}

/// What `str::parse::<i32>` yields on a string with these UTF-8 bytes.
pub open spec fn parsed_i32(s: Seq<u8>) -> Option<int> {
    match parsed_decimal(s) {
        Some(v) => if i32::MIN <= v <= i32::MAX {
            Some(v)
        } else {
            None
        },
        None => None,
    }
}

/// What `str::parse::<u64>` yields on a string with these UTF-8 bytes
/// (a leading `-` is accepted by the grammar only for the value 0).
pub open spec fn parsed_u64(s: Seq<u8>) -> Option<int> {
    match parsed_decimal(s) {
        Some(v) => if 0 <= v <= u64::MAX {
            Some(v)
        } else {
            None
        },
        None => None,
    }
}

/// A digit appended to the end multiplies the prefix value by ten.
proof fn lemma_digits_value_step(s: Seq<u8>, i: int)
    requires
        0 <= i < s.len(),
    ensures
        digits_value(s.take(i + 1)) == digits_value(s.take(i)) * 10 + (s[i] - 48),
{
    assert(s.take(i + 1).drop_last() =~= s.take(i));
    assert(s.take(i + 1).last() == s[i]);
}

/// Digit values never shrink as the sequence grows to the right.
proof fn lemma_digits_value_monotone(s: Seq<u8>, i: int, j: int)
    requires
        0 <= i <= j <= s.len(),
        forall|k: int| 0 <= k < s.len() ==> is_digit_byte(#[trigger] s[k]),
        digits_value(s.take(i)) >= 0,
    ensures
        digits_value(s.take(j)) >= digits_value(s.take(i)),
        digits_value(s.take(j)) >= 0,
    decreases j - i,
{
    if i < j {
        lemma_digits_value_step(s, i);
        lemma_digits_value_monotone(s, i + 1, j);
    }
}

/// The value of a whole digit sequence is never negative.
proof fn lemma_digits_value_nonneg(s: Seq<u8>)
    requires
        forall|k: int| 0 <= k < s.len() ==> is_digit_byte(#[trigger] s[k]),
    ensures
        digits_value(s) >= 0,
    decreases s.len(),
{
    if s.len() > 0 {
        lemma_digits_value_nonneg(s.drop_last());
    }
}

/// Parse the digit bytes `s[from..]` as an unsigned value, saturating at
/// `u64::MAX` the way the spec-level value would exceed it.
fn parse_digits(s: &[u8], from: usize) -> (r: Option<u64>)
    requires
        from <= s@.len(),
    ensures
        match r {
            Some(v) => is_digit_seq(s@.skip(from as int)) && digits_value(s@.skip(from as int))
                == v,
            None => !is_digit_seq(s@.skip(from as int)) || digits_value(s@.skip(from as int))
                > u64::MAX,
        },
{
    let ghost whole = s@.skip(from as int);
    let len = s.len();
    if from >= len {
        assert(!is_digit_seq(whole));
        return None;
    }
    let mut i: usize = from;
    let mut acc: u64 = 0;
    while i < len
        invariant
            from <= i <= len,
            len == s@.len(),
            whole == s@.skip(from as int),
            forall|k: int| from <= k < i ==> is_digit_byte(#[trigger] s@[k]),
            acc == digits_value(s@.subrange(from as int, i as int)),
        decreases len - i,
    {
        let b = s[i];
        if b < 48 || b > 57 {
            assert(whole[i - from] == s@[i as int]);
            assert(!is_digit_seq(whole));
            return None;
        }
        let d: u64 = (b - 48) as u64;
        proof {
            assert(s@.subrange(from as int, i + 1).drop_last() =~= s@.subrange(
                from as int,
                i as int,
            ));
            assert(s@.subrange(from as int, i + 1).last() == s@[i as int]);
        }
        let step = acc.checked_mul(10);
        let next = match step {
            Some(m) => m.checked_add(d),
            None => None,
        };
        match next {
            Some(v) => {
                acc = v;
            },
            None => {
                // The value so far already exceeds what fits; the rest of the
                // digits can only make it larger, or break the digit shape.
                proof {
                    let pre = s@.subrange(from as int, i + 1);
                    assert(digits_value(pre) > u64::MAX);
                    if is_digit_seq(whole) {
                        assert(forall|k: int|
                            0 <= k < whole.len() ==> is_digit_byte(#[trigger] whole[k]));
                        assert(forall|k: int|
                            from <= k < s@.len() ==> is_digit_byte(#[trigger] s@[k])) by {
                            assert(forall|k: int|
                                from <= k < s@.len() ==> s@[k] == whole[k - from]);
                        }
                        let sub = s@.skip(from as int);
                        assert(sub.take(i + 1 - from) =~= pre);
                        assert(sub.take(sub.len() as int) =~= sub);
                        lemma_digits_value_nonneg(pre);
                        lemma_digits_value_monotone(sub, i + 1 - from, sub.len() as int);
                        assert(digits_value(whole) > u64::MAX);
                    }
                }
                return None;
            },
        }
        i += 1;
    }
    assert(s@.subrange(from as int, len as int) =~= whole);
    assert(is_digit_seq(whole));
    Some(acc)
}

/// Parse a byte string as `str::parse::<u64>` would parse the text it spells.
pub fn parse_u64_bytes(s: &[u8]) -> (r: Option<u64>)
    ensures
        match r {
            Some(v) => parsed_u64(s@) == Some(v as int),
            None => parsed_u64(s@) is None,
        },
{
    if s.len() > 0 && (s[0] == 43 || s[0] == 45) {
        if s[0] == 45 {
            // A minus sign is grammatical, but no digit sequence but zero
            // stays in range; `str::parse::<u64>` still rejects "-0".
            proof {
                if is_digit_seq(s@.skip(1)) {
                    lemma_digits_value_nonneg(s@.skip(1));
                }
            }
            match parse_digits(s, 1) {
                Some(v) => {
                    if v == 0 {
                        Some(0)
                    } else {
                        None
                    }
                },
                None => None,
            }
        } else {
            parse_digits(s, 1)
        }
    } else {
        let ghost whole = s@;
        assert(s@.skip(0) =~= whole);
        parse_digits(s, 0)
    }
}

/// Parse a byte string as `str::parse::<i32>` would parse the text it spells.
pub fn parse_i32_bytes(s: &[u8]) -> (r: Option<i32>)
    ensures
        match r {
            Some(v) => parsed_i32(s@) == Some(v as int),
            None => parsed_i32(s@) is None,
        },
{
    if s.len() > 0 && s[0] == 45 {
        match parse_digits(s, 1) {
            Some(v) => {
                if v <= 2147483648u64 {
                    let neg: i64 = 0i64 - (v as i64);
                    assert(i32::MIN <= neg <= i32::MAX);
                    Some(neg as i32)
                } else {
                    None
                }
            },
            None => {
                proof {
                    if is_digit_seq(s@.skip(1)) {
                        lemma_digits_value_nonneg(s@.skip(1));
                    }
                }
                None
            },
        }
    } else if s.len() > 0 && s[0] == 43 {
        match parse_digits(s, 1) {
            Some(v) => {
                if v <= 2147483647u64 {
                    Some(v as i32)
                } else {
                    None
                }
            },
            None => None,
        }
    } else {
        let ghost whole = s@;
        assert(s@.skip(0) =~= whole);
        match parse_digits(s, 0) {
            Some(v) => {
                if v <= 2147483647u64 {
                    Some(v as i32)
                } else {
                    None
                }
            },
            None => None,
        }
    }
}

} // verus!
