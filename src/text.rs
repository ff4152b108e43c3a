//! Decimal and hexadecimal renderings of integers, as the instrument's
//! command language writes them, and the reading of the numbers that the
//! device answers with.
use vstd::prelude::*;

verus! {

/// The ASCII digit for a value below sixteen, lower case for ten and above.
pub open spec fn digit_char(d: nat) -> char {
    if d < 10 {
        ((48 + d) as u8) as char
    } else {
        ((87 + d) as u8) as char
    }
}

/// Decimal digits of `n`, most significant first, without leading zeros.
pub open spec fn decimal(n: nat) -> Seq<char>
    decreases n,
{
    if n < 10 {
        seq![digit_char(n)]
    } else {
        decimal(n / 10).push(digit_char(n % 10))
    }
}

/// Decimal rendering of a signed integer: a minus sign before negative values.
pub open spec fn signed_decimal(n: int) -> Seq<char> {
    if n < 0 {
        seq!['-'] + decimal((-n) as nat)
    } else {
        decimal(n as nat)
    }
}

/// Lower-case hexadecimal digits of `n`, most significant first.
pub open spec fn hex(n: nat) -> Seq<char>
    decreases n,
{
    if n < 16 {
        seq![digit_char(n)]
    } else {
        hex(n / 16).push(digit_char(n % 16))
    }
}

/// Hexadecimal rendering padded with zeros to at least two digits.
pub open spec fn hex2(n: nat) -> Seq<char> {
    if n < 16 {
        seq!['0', digit_char(n)]
    } else {
        hex(n)
    }
}

fn digit_str(d: u64) -> (r: &'static str)
    requires
        d < 16,
    ensures
        r@ == seq![digit_char(d as nat)],
{
    proof {
        reveal_strlit("0");
        reveal_strlit("1");
        reveal_strlit("2");
        reveal_strlit("3");
        reveal_strlit("4");
        reveal_strlit("5");
        reveal_strlit("6");
        reveal_strlit("7");
        reveal_strlit("8");
        reveal_strlit("9");
        reveal_strlit("a");
        reveal_strlit("b");
        reveal_strlit("c");
        reveal_strlit("d");
        reveal_strlit("e");
        reveal_strlit("f");
    }
    match d {
        0 => "0",
        1 => "1",
        2 => "2",
        3 => "3",
        4 => "4",
        5 => "5",
        6 => "6",
        7 => "7",
        8 => "8",
        9 => "9",
        10 => "a",
        11 => "b",
        12 => "c",
        13 => "d",
        14 => "e",
        _ => "f",
    }
}

/// Appends the decimal digits of `n`.
pub fn push_decimal(s: &mut String, n: u64)
    ensures
        final(s)@ == old(s)@ + decimal(n as nat),
    decreases n,
{
    if n < 10 {
        s.append(digit_str(n));
    } else {
        push_decimal(s, n / 10);
        s.append(digit_str(n % 10));
    }
}

/// Appends the decimal rendering of a signed integer.
pub fn push_signed_decimal(s: &mut String, n: i64)
    ensures
        final(s)@ == old(s)@ + signed_decimal(n as int),
{
    if n < 0 {
        proof {
            reveal_strlit("-");
        }
        s.append("-");
        let m: u64 = if n == i64::MIN {
            9223372036854775808u64
        } else {
            (-n) as u64
        };
        push_decimal(s, m);
    } else {
        push_decimal(s, n as u64);
    }
}

fn push_hex(s: &mut String, n: u64)
    ensures
        final(s)@ == old(s)@ + hex(n as nat),
    decreases n,
{
    if n < 16 {
        s.append(digit_str(n));
    } else {
        push_hex(s, n / 16);
        s.append(digit_str(n % 16));
    }
}

/// Appends `n` in lower-case hexadecimal, padded to two digits.
pub fn push_hex2(s: &mut String, n: u64)
    ensures
        final(s)@ == old(s)@ + hex2(n as nat),
{
    if n < 16 {
        proof {
            reveal_strlit("0");
        }
        s.append("0");
    }
    push_hex(s, n);
}

/// ASCII white space: space, tab, line feed, vertical tab, form feed, carriage return.
pub open spec fn is_space(b: u8) -> bool {
    b == 32 || (9 <= b && b <= 13)
}

pub open spec fn is_digit(b: u8) -> bool {
    48 <= b && b <= 57
}

/// `s` without its leading white space.
pub open spec fn trim_start(s: Seq<u8>) -> Seq<u8>
    decreases s.len(),
{
    if s.len() > 0 && is_space(s[0]) {
        trim_start(s.drop_first())
    } else {
        s
    }
}

/// `s` without its trailing white space.
pub open spec fn trim_end(s: Seq<u8>) -> Seq<u8>
    decreases s.len(),
{
    if s.len() > 0 && is_space(s.last()) {
        trim_end(s.drop_last())
    } else {
        s
    }
}

/// The value of a run of decimal digits.
pub open spec fn digits_value(s: Seq<u8>) -> int
    decreases s.len(),
{
    if s.len() == 0 {
        0
    } else {
        digits_value(s.drop_last()) * 10 + (s.last() - 48)
    }
}

pub open spec fn all_digits(s: Seq<u8>) -> bool {
    s.len() > 0 && forall|i: int| 0 <= i < s.len() ==> is_digit(#[trigger] s[i])
}

/// The value of an optionally signed decimal numeral, or None if `t` is none.
pub open spec fn numeral_value(t: Seq<u8>) -> Option<int> {
    if t.len() > 0 && (t[0] == 45 || t[0] == 43) {
        if all_digits(t.drop_first()) {
            if t[0] == 45 {
                Some(-digits_value(t.drop_first()))
            } else {
                Some(digits_value(t.drop_first()))
            }
        } else {
            None
        }
    } else if all_digits(t) {
        Some(digits_value(t))
    } else {
        None
    }
}

/// The 32-bit integer that a text holds between optional white space.
pub open spec fn parse_i32_spec(s: Seq<u8>) -> Option<i32> {
    match numeral_value(trim_end(trim_start(s))) {
        Some(v) => if i32::MIN <= v <= i32::MAX {
            Some(v as i32)
        } else {
            None
        },
        None => None,
    }
}

/// A bound above every 32-bit value, at which digit values are capped while read.
const DIGITS_CAP: i64 = 4294967296;

proof fn lemma_digits_nonneg(s: Seq<u8>)
    requires
        forall|i: int| 0 <= i < s.len() ==> is_digit(#[trigger] s[i]),
    ensures
        digits_value(s) >= 0,
    decreases s.len(),
{
    if s.len() > 0 {
        lemma_digits_nonneg(s.drop_last());
    }
}

fn is_space_exec(b: u8) -> (r: bool)
    ensures
        r == is_space(b),
{
    b == 32 || (9 <= b && b <= 13)
}

/// Reads the digits `s[lo..hi]`, capped at `DIGITS_CAP`; None if one is no digit or there are none.
fn read_digits(s: &Vec<u8>, lo: usize, hi: usize) -> (r: Option<i64>)
    requires
        lo <= hi <= s.len(),
    ensures
        match r {
            Some(v) => 0 <= v <= DIGITS_CAP && all_digits(s@.subrange(lo as int, hi as int)) && v == if digits_value(
                s@.subrange(lo as int, hi as int),
            ) < DIGITS_CAP {
                digits_value(s@.subrange(lo as int, hi as int))
            } else {
                DIGITS_CAP as int
            },
            None => !all_digits(s@.subrange(lo as int, hi as int)),
        },
{
    if lo == hi {
        return None;
    }
    let mut acc: i64 = 0;
    let mut i: usize = lo;
    while i < hi
        invariant
            lo <= i <= hi <= s.len(),
            forall|k: int| lo <= k < i ==> is_digit(#[trigger] s@[k]),
            acc == if digits_value(s@.subrange(lo as int, i as int)) < DIGITS_CAP {
                digits_value(s@.subrange(lo as int, i as int))
            } else {
                DIGITS_CAP as int
            },
        decreases hi - i,
    {
        let b = s[i];
        if !(48 <= b && b <= 57) {
            proof {
                assert(s@.subrange(lo as int, hi as int)[i - lo] == b);
            }
            return None;
        }
        proof {
            let pre = s@.subrange(lo as int, i as int);
            let next = s@.subrange(lo as int, i + 1);
            assert(next.drop_last() =~= pre);
            assert forall|k: int| 0 <= k < pre.len() implies is_digit(#[trigger] pre[k]) by {
                assert(pre[k] == s@[lo + k]);
            }
            lemma_digits_nonneg(pre);
        }
        let d = (b - 48) as i64;
        let next: i64 = acc * 10 + d;
        acc = if next < DIGITS_CAP {
            next
        } else {
            DIGITS_CAP
        };
        i = i + 1;
    }
    proof {
        let all = s@.subrange(lo as int, hi as int);
        assert forall|k: int| 0 <= k < all.len() implies is_digit(#[trigger] all[k]) by {
            assert(all[k] == s@[lo + k]);
        }
        lemma_digits_nonneg(all);
    }
    Some(acc)
}

/// The 32-bit integer that a response holds between optional white space.
pub fn parse_i32(s: &Vec<u8>) -> (r: Option<i32>)
    ensures
        r == parse_i32_spec(s@),
{
    let len = s.len();
    let mut lo: usize = 0;
    proof {
        assert(s@.subrange(0, len as int) =~= s@);
    }
    while lo < len && is_space_exec(s[lo])
        invariant
            lo <= len == s.len(),
            trim_start(s@) == trim_start(s@.subrange(lo as int, len as int)),
        decreases len - lo,
    {
        proof {
            assert(s@.subrange(lo as int, len as int).drop_first() =~= s@.subrange(lo + 1, len as int));
        }
        lo = lo + 1;
    }
    let mut hi: usize = len;
    while hi > lo && is_space_exec(s[hi - 1])
        invariant
            lo <= hi <= len == s.len(),
            trim_end(s@.subrange(lo as int, len as int)) == trim_end(s@.subrange(lo as int, hi as int)),
        decreases hi,
    {
        proof {
            assert(s@.subrange(lo as int, hi as int).drop_last() =~= s@.subrange(lo as int, hi - 1));
        }
        hi = hi - 1;
    }
    proof {
        assert(trim_start(s@.subrange(lo as int, len as int)) == s@.subrange(lo as int, len as int));
        assert(trim_end(s@.subrange(lo as int, hi as int)) == s@.subrange(lo as int, hi as int));
    }
    let ghost t = s@.subrange(lo as int, hi as int);
    if lo == hi {
        return None;
    }
    let first = s[lo];
    let negative = first == 45;
    let start: usize = if first == 45 || first == 43 { lo + 1 } else { lo };
    proof {
        assert(t[0] == first);
        assert(t.drop_first() =~= s@.subrange(lo + 1, hi as int));
    }
    match read_digits(s, start, hi) {
        None => None,
        Some(v) => {
            let value: i64 = if negative {
                -v
            } else {
                v
            };
            if -2147483648 <= value && value <= 2147483647 {
                Some(value as i32)
            } else {
                None
            }
        },
    }
}

pub open spec fn is_hex_digit(b: u8) -> bool {
    (48 <= b && b <= 57) || (97 <= b && b <= 102) || (65 <= b && b <= 70)
}

pub open spec fn hex_digit_value(b: u8) -> int {
    if 48 <= b && b <= 57 {
        b - 48
    } else if 97 <= b && b <= 102 {
        b - 87
    } else {
        b - 55
    }
}

/// The value of a run of hexadecimal digits, of either case.
pub open spec fn hex_digits_value(s: Seq<u8>) -> int
    decreases s.len(),
{
    if s.len() == 0 {
        0
    } else {
        hex_digits_value(s.drop_last()) * 16 + hex_digit_value(s.last())
    }
}

pub open spec fn all_hex(s: Seq<u8>) -> bool {
    s.len() > 0 && forall|i: int| 0 <= i < s.len() ==> is_hex_digit(#[trigger] s[i])
}

/// `s` without every leading `0x`.
pub open spec fn strip_hex_prefix(s: Seq<u8>) -> Seq<u8>
    decreases s.len(),
{
    if s.len() >= 2 && s[0] == 48 && s[1] == 120 {
        strip_hex_prefix(s.subrange(2, s.len() as int))
    } else {
        s
    }
}

/// The 32-bit value of a hexadecimal text: leading `0x` prefixes removed, then
/// an optional `+` and one or more digits.
pub open spec fn parse_hex_u32_spec(s: Seq<u8>) -> Option<u32> {
    let t = strip_hex_prefix(s);
    let d = if t.len() > 0 && t[0] == 43 {
        t.drop_first()
    } else {
        t
    };
    if all_hex(d) && hex_digits_value(d) <= u32::MAX {
        Some(hex_digits_value(d) as u32)
    } else {
        None
    }
}

proof fn lemma_hex_digits_nonneg(s: Seq<u8>)
    requires
        forall|i: int| 0 <= i < s.len() ==> is_hex_digit(#[trigger] s[i]),
    ensures
        hex_digits_value(s) >= 0,
    decreases s.len(),
{
    if s.len() > 0 {
        lemma_hex_digits_nonneg(s.drop_last());
    }
}

proof fn lemma_hex_prefix_grows(s: Seq<u8>, j: int)
    requires
        all_hex(s),
        0 <= j <= s.len(),
    ensures
        hex_digits_value(s) >= hex_digits_value(s.subrange(0, j)),
    decreases s.len(),
{
    if j == s.len() {
        assert(s.subrange(0, j) =~= s);
    } else {
        let init = s.drop_last();
        if init.len() > 0 {
            assert forall|k: int| 0 <= k < init.len() implies is_hex_digit(#[trigger] init[k]) by {
                assert(init[k] == s[k]);
            }
            lemma_hex_prefix_grows(init, j);
            assert(init.subrange(0, j) =~= s.subrange(0, j));
        } else {
            assert(s.subrange(0, j) =~= Seq::<u8>::empty());
        }
        assert forall|k: int| 0 <= k < init.len() implies is_hex_digit(#[trigger] init[k]) by {
            assert(init[k] == s[k]);
        }
        lemma_hex_digits_nonneg(init);
    }
}

/// Parses a hexadecimal text as `parse_hex_u32_spec` says.
pub fn parse_hex_u32(s: &[u8]) -> (r: Option<u32>)
    ensures
        r == parse_hex_u32_spec(s@),
{
    let len = s.len();
    let mut lo: usize = 0;
    proof {
        assert(s@.subrange(0, len as int) =~= s@);
    }
    while lo < len && len - lo >= 2 && s[lo] == 48 && s[lo + 1] == 120
        invariant
            lo <= len == s@.len(),
            strip_hex_prefix(s@) == strip_hex_prefix(s@.subrange(lo as int, len as int)),
        decreases len - lo,
    {
        proof {
            assert(s@.subrange(lo as int, len as int).subrange(2, len - lo) =~= s@.subrange(lo + 2, len as int));
        }
        lo = lo + 2;
    }
    let ghost t = s@.subrange(lo as int, len as int);
    proof {
        assert(strip_hex_prefix(t) == t);
    }
    let start: usize = if lo < len && s[lo] == 43 {
        lo + 1
    } else {
        lo
    };
    let ghost d = s@.subrange(start as int, len as int);
    proof {
        if lo < len && s@[lo as int] == 43 {
            assert(t.drop_first() =~= d);
        } else {
            assert(t =~= d);
        }
    }
    let ghost expected: Option<u32> = if all_hex(d) && hex_digits_value(d) <= u32::MAX {
        Some(hex_digits_value(d) as u32)
    } else {
        None
    };
    assert(parse_hex_u32_spec(s@) == expected);
    if start == len {
        return None;
    }
    let mut acc: u64 = 0;
    let mut i: usize = start;
    while i < len
        invariant
            start <= i <= len == s@.len(),
            d == s@.subrange(start as int, len as int),
            parse_hex_u32_spec(s@) == expected,
            expected == if all_hex(d) && hex_digits_value(d) <= u32::MAX {
                Some(hex_digits_value(d) as u32)
            } else {
                None
            },
            forall|k: int| start <= k < i ==> is_hex_digit(#[trigger] s@[k]),
            acc == hex_digits_value(s@.subrange(start as int, i as int)),
            acc <= u32::MAX,
        decreases len - i,
    {
        let b = s[i];
        let v: u64 = if 48 <= b && b <= 57 {
            (b - 48) as u64
        } else if 97 <= b && b <= 102 {
            (b - 87) as u64
        } else if 65 <= b && b <= 70 {
            (b - 55) as u64
        } else {
            proof {
                assert(d[i - start] == b);
            }
            return None;
        };
        let ghost pre = s@.subrange(start as int, i as int);
        let ghost next = s@.subrange(start as int, i + 1);
        proof {
            assert(next.drop_last() =~= pre);
            assert forall|k: int| 0 <= k < next.len() implies is_hex_digit(#[trigger] next[k]) by {
                assert(next[k] == s@[start + k]);
            }
        }
        let value: u64 = acc * 16 + v;
        if value > 0xffff_ffff {
            proof {
                assert(d.subrange(0, i + 1 - start) =~= next);
                if all_hex(d) {
                    lemma_hex_prefix_grows(d, i + 1 - start);
                }
            }
            return None;
        }
        acc = value;
        i = i + 1;
    }
    proof {
        assert forall|k: int| 0 <= k < d.len() implies is_hex_digit(#[trigger] d[k]) by {
            assert(d[k] == s@[start + k]);
        }
        assert(s@.subrange(start as int, i as int) =~= d);
    }
    Some(acc as u32)
}

} // verus!
