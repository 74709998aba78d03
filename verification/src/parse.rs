//! Parsing of human-readable byte sizes: `"1g"`, `"512m"`, `"64k"` or a
//! plain number, surrounding whitespace ignored and the unit suffix
//! case-insensitive. A suffixed size whose number does not parse counts as
//! 1 unit; an unsuffixed string that does not parse counts as 0; a size
//! beyond the representable range saturates.

use vstd::prelude::*;

verus! {

use crate::text::chars_of;

/// A whitespace character, by Unicode's White_Space list.
pub open spec fn is_space_char(c: char) -> bool {
    let u = c as u32;
    u == 0x9 || u == 0xA || u == 0xB || u == 0xC || u == 0xD || u == 0x20 || u == 0x85 || u
        == 0xA0 || u == 0x1680 || (0x2000 <= u && u <= 0x200A) || u == 0x2028 || u == 0x2029 || u
        == 0x202F || u == 0x205F || u == 0x3000
}

/// Decides `is_space_char` on a machine character.
fn space_char(c: char) -> (r: bool)
    ensures
        r == is_space_char(c),
{
    let u = c as u32;
    u == 0x9 || u == 0xA || u == 0xB || u == 0xC || u == 0xD || u == 0x20 || u == 0x85 || u
        == 0xA0 || u == 0x1680 || (0x2000 <= u && u <= 0x200A) || u == 0x2028 || u == 0x2029 || u
        == 0x202F || u == 0x205F || u == 0x3000
}

/// `s` with leading and trailing whitespace removed.
pub open spec fn trimmed(s: Seq<char>) -> Seq<char>
    decreases s.len(),
{
    if s.len() == 0 {
        s
    } else if is_space_char(s[0]) {
        trimmed(s.skip(1))
    } else if is_space_char(s.last()) {
        trimmed(s.drop_last())
    } else {
        s
    }
}

/// An ASCII decimal digit.
pub open spec fn is_digit_char(c: char) -> bool {
    '0' <= c && c <= '9'
}

/// The numeric value of a digit character.
pub open spec fn digit_val(c: char) -> int {
    c as int - 48
}

/// The number the digit string denotes, most significant digit first.
pub open spec fn digits_val(s: Seq<char>) -> int
    decreases s.len(),
{
    if s.len() == 0 {
        0
    } else {
        digits_val(s.drop_last()) * 10 + digit_val(s.last())
    }
}

/// Non-empty and all digits.
pub open spec fn all_digits(s: Seq<char>) -> bool {
    s.len() > 0 && forall|i: int| 0 <= i < s.len() ==> is_digit_char(#[trigger] s[i])
}

/// `s` with one leading `+` sign removed, as the decimal parser accepts it.
pub open spec fn digits_part(s: Seq<char>) -> Seq<char> {
    if s.len() > 0 && s[0] == '+' {
        s.skip(1)
    } else {
        s
    }
}

/// What `s` parses to as an unsigned 64-bit decimal: its value, or nothing
/// when `s` is empty, holds a non-digit, or overflows.
pub open spec fn parsed_u64(s: Seq<char>) -> Option<u64> {
    let d = digits_part(s);
    if all_digits(d) && digits_val(d) <= u64::MAX {
        Some(digits_val(d) as u64)
    } else {
        None
    }
}

/// The byte count of a suffixed size: the parsed number (1 when it does not
/// parse) times the unit, saturated to `u64`.
pub open spec fn scaled(digits: Seq<char>, unit: u64) -> u64 {
    let v = match parsed_u64(digits) {
        Some(v) => v as int,
        None => 1,
    };
    if v * unit > u64::MAX {
        u64::MAX
    } else {
        (v * unit) as u64
    }
}

/// The byte count `parse_bytes` answers for the characters of its input.
pub open spec fn parse_bytes_spec(s: Seq<char>) -> u64 {
    let t = trimmed(s);
    if t.len() > 0 && (t.last() == 'g' || t.last() == 'G') {
        scaled(t.drop_last(), 0x4000_0000)
    } else if t.len() > 0 && (t.last() == 'm' || t.last() == 'M') {
        scaled(t.drop_last(), 0x10_0000)
    } else if t.len() > 0 && (t.last() == 'k' || t.last() == 'K') {
        scaled(t.drop_last(), 0x400)
    } else {
        match parsed_u64(t) {
            Some(v) => v,
            None => 0,
        }
    }
}

proof fn lemma_digits_val_nonneg(s: Seq<char>)
    requires
        forall|i: int| 0 <= i < s.len() ==> is_digit_char(#[trigger] s[i]),
    ensures
        digits_val(s) >= 0,
    decreases s.len(),
{
    if s.len() > 0 {
        assert(forall|i: int|
            0 <= i < s.len() - 1 ==> (#[trigger] s.drop_last()[i]) == s[i]);
        lemma_digits_val_nonneg(s.drop_last());
    }
}

proof fn lemma_digits_val_prefix(s: Seq<char>, j: int)
    requires
        forall|i: int| 0 <= i < s.len() ==> is_digit_char(#[trigger] s[i]),
        0 <= j <= s.len(),
    ensures
        digits_val(s.take(j)) <= digits_val(s),
    decreases s.len() - j,
{
    if j < s.len() {
        lemma_digits_val_prefix(s, j + 1);
        assert(s.take(j + 1).drop_last() =~= s.take(j));
        assert(s.take(j + 1).last() == s[j]);
        lemma_digits_val_nonneg(s.take(j));
        assert(digits_val(s.take(j)) * 10 >= digits_val(s.take(j))) by (nonlinear_arith)
            requires
                digits_val(s.take(j)) >= 0,
        ;
    } else {
        assert(s.take(j) =~= s);
    }
}

/// Parses `cs[lo..hi]` as an unsigned decimal, accepting one leading `+`.
fn parse_u64_range(cs: &Vec<char>, lo: usize, hi: usize) -> (r: Option<u64>)
    requires
        lo <= hi <= cs@.len(),
    ensures
        r == parsed_u64(cs@.subrange(lo as int, hi as int)),
{
    let ghost whole = cs@.subrange(lo as int, hi as int);
    let start: usize = if hi > lo && cs[lo] == '+' {
        lo + 1
    } else {
        lo
    };
    let ghost digits = cs@.subrange(start as int, hi as int);
    proof {
        assert(digits =~= digits_part(whole));
    }
    if start == hi {
        return None;
    }
    let mut acc: u64 = 0;
    let mut i: usize = start;
    while i < hi
        invariant
            lo <= start <= i <= hi <= cs@.len(),
            digits == cs@.subrange(start as int, hi as int),
            digits == digits_part(cs@.subrange(lo as int, hi as int)),
            hi > start,
            acc == digits_val(digits.take(i - start)),
            forall|j: int| 0 <= j < i - start ==> is_digit_char(#[trigger] digits[j]),
        decreases hi - i,
    {
        let c = cs[i];
        proof {
            assert(digits[i - start] == cs@[i as int]);
        }
        if !('0' <= c && c <= '9') {
            return None;
        }
        let d: u64 = (c as u32 as u64) - 48;
        proof {
            assert(digits.take(i - start + 1).drop_last() =~= digits.take(i - start));
            assert(digits.take(i - start + 1).last() == digits[i - start]);
        }
        if acc > (u64::MAX - d) / 10 {
            proof {
                let k = i - start + 1;
                assert(digits_val(digits.take(k)) == acc * 10 + d);
                assert(acc * 10 + d > u64::MAX) by (nonlinear_arith)
                    requires
                        acc > (u64::MAX - d) / 10,
                        0 <= d <= 9,
                        acc >= 0,
                ;
                if forall|j: int| 0 <= j < digits.len() ==> is_digit_char(#[trigger] digits[j]) {
                    lemma_digits_val_prefix(digits, k);
                }
            }
            return None;
        }
        proof {
            vstd::arithmetic::div_mod::lemma_fundamental_div_mod(u64::MAX - d, 10);
        }
        acc = acc * 10 + d;
        i = i + 1;
    }
    proof {
        assert(digits.take(hi - start) =~= digits);
    }
    Some(acc)
}

/// Multiplies a parsed count by its unit, saturating at `u64::MAX`.
fn scale_units(parsed: Option<u64>, unit: u64) -> (r: u64)
    requires
        unit >= 1,
    ensures
        ({
            let v = match parsed {
                Some(v) => v as int,
                None => 1,
            };
            r == if v * unit > u64::MAX {
                u64::MAX
            } else {
                (v * unit) as u64
            }
        }),
{
    let v: u64 = match parsed {
        Some(v) => v,
        None => 1,
    };
    let limit = u64::MAX / unit;
    proof {
        vstd::arithmetic::div_mod::lemma_fundamental_div_mod(u64::MAX as int, unit as int);
        let q = u64::MAX as int / unit as int;
        let m = u64::MAX as int % unit as int;
        if v > limit {
            assert(v as int * unit as int > u64::MAX) by (nonlinear_arith)
                requires
                    v as int >= q + 1,
                    unit as int >= 1,
                    u64::MAX as int == q * unit as int + m,
                    m < unit as int,
            ;
        } else {
            assert(v as int * unit as int <= u64::MAX) by (nonlinear_arith)
                requires
                    0 <= v as int <= q,
                    unit as int >= 1,
                    u64::MAX as int == q * unit as int + m,
                    0 <= m,
            ;
        }
    }
    if v > limit {
        u64::MAX
    } else {
        v * unit
    }
}

/// Reads a human-readable byte size: a decimal count with an optional
/// case-insensitive `g`, `m` or `k` binary-unit suffix, surrounding
/// whitespace ignored. A suffixed count that does not parse falls back to 1
/// unit, an unsuffixed one to 0; an out-of-range size saturates.
pub fn parse_bytes(s: &str) -> (r: u64)
    ensures
        r == parse_bytes_spec(s@),
{
    let cs = chars_of(s);
    let mut a: usize = 0;
    let mut b: usize = cs.len();
    proof {
        assert(cs@.subrange(0, cs@.len() as int) =~= cs@);
    }
    while a < b && space_char(cs[a])
        invariant
            a <= b == cs@.len(),
            cs@ == s@,
            trimmed(s@) == trimmed(cs@.subrange(a as int, b as int)),
        decreases b - a,
    {
        proof {
            let cur = cs@.subrange(a as int, b as int);
            assert(is_space_char(cur[0]));
            assert(cur.skip(1) =~= cs@.subrange(a + 1, b as int));
        }
        a = a + 1;
    }
    while b > a && space_char(cs[b - 1])
        invariant
            a <= b <= cs@.len(),
            cs@ == s@,
            a == b || !is_space_char(cs@[a as int]),
            trimmed(s@) == trimmed(cs@.subrange(a as int, b as int)),
        decreases b,
    {
        proof {
            let cur = cs@.subrange(a as int, b as int);
            assert(is_space_char(cur.last()));
            assert(!is_space_char(cur[0]));
            assert(cur.drop_last() =~= cs@.subrange(a as int, b - 1));
        }
        b = b - 1;
    }
    let ghost t = cs@.subrange(a as int, b as int);
    proof {
        if a < b {
            assert(!is_space_char(t[0]));
            assert(!is_space_char(t.last()));
        }
        assert(trimmed(t) == t);
        assert(trimmed(s@) == t);
    }
    if b == a {
        return 0;
    }
    let last = cs[b - 1];
    proof {
        assert(t.last() == cs@[b - 1]);
        assert(t.drop_last() =~= cs@.subrange(a as int, b - 1));
    }
    if last == 'g' || last == 'G' {
        scale_units(parse_u64_range(&cs, a, b - 1), 0x4000_0000)
    } else if last == 'm' || last == 'M' {
        scale_units(parse_u64_range(&cs, a, b - 1), 0x10_0000)
    } else if last == 'k' || last == 'K' {
        scale_units(parse_u64_range(&cs, a, b - 1), 0x400)
    } else {
        match parse_u64_range(&cs, a, b) {
            Some(v) => v,
            None => 0,
        }
    }
}

} // verus!
