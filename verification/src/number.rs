//! Unsigned integers written in decimal or hexadecimal text, as the
//! `FromStr`/`from_str_radix` parsers of the unsigned integer types read
//! them and as `{}` and `{:02X}` write them.
use crate::text::push_char;
use vstd::prelude::*;

verus! {

/// Whether `c` is a decimal digit.
pub open spec fn is_digit(c: char) -> bool {
    '0' <= c && c <= '9'
}

/// Whether `c` is a hexadecimal digit (either case).
pub open spec fn is_hex_digit(c: char) -> bool {
    is_digit(c) || ('a' <= c && c <= 'f') || ('A' <= c && c <= 'F')
}

/// The value of a digit of the given base (10 or 16).
pub open spec fn digit_value(c: char) -> int {
    if is_digit(c) {
        c as int - '0' as int
    } else if 'a' <= c && c <= 'f' {
        c as int - 'a' as int + 10
    } else {
        c as int - 'A' as int + 10
    }
}

/// Whether every character of `s` is a digit of the base.
pub open spec fn all_digits(s: Seq<char>, base: int) -> bool {
    forall|i: int|
        0 <= i < s.len() ==> if base == 16 {
            is_hex_digit(#[trigger] s[i])
        } else {
            is_digit(s[i])
        }
}

/// The value of a string of digits in the given base.
pub open spec fn digits_value(s: Seq<char>, base: int) -> int
    decreases s.len(),
{
    if s.len() == 0 {
        0
    } else {
        digits_value(s.drop_last(), base) * base + digit_value(s.last())
    }
}

/// The digits of a number text: an optional leading `+` is dropped.
pub open spec fn unsigned_digits(s: Seq<char>) -> Seq<char> {
    if s.len() > 0 && s[0] == '+' {
        s.drop_first()
    } else {
        s
    }
}

/// The unsigned number written in `s` in the given base, when it is at most
/// `max`: an optional `+` and then one or more digits, nothing else.
pub open spec fn parse_unsigned(s: Seq<char>, base: int, max: int) -> Option<int> {
    let d = unsigned_digits(s);
    if d.len() > 0 && all_digits(d, base) && digits_value(d, base) <= max {
        Some(digits_value(d, base))
    } else {
        None
    }
}

proof fn lemma_digits_value_nonneg(s: Seq<char>, base: int)
    requires
        base == 10 || base == 16,
        all_digits(s, base),
    ensures
        digits_value(s, base) >= 0,
        s.len() > 0 ==> digits_value(s, base) >= digits_value(s.drop_last(), base),
    decreases s.len(),
{
    if s.len() > 0 {
        let t = s.drop_last();
        assert(all_digits(t, base)) by {
            assert forall|i: int| 0 <= i < t.len() implies (if base == 16 {
                is_hex_digit(#[trigger] t[i])
            } else {
                is_digit(t[i])
            }) by {
                assert(t[i] == s[i]);
            }
        }
        lemma_digits_value_nonneg(t, base);
        assert(s.last() == s[s.len() - 1]);
        assert(digit_value(s.last()) >= 0);
    }
}

/// The value of `c` as a digit of base `base`, if it is one.
pub fn digit_of(c: char, base: u32) -> (r: Option<u64>)
    requires
        base == 10 || base == 16,
    ensures
        r is Some <==> (if base == 16 {
            is_hex_digit(c)
        } else {
            is_digit(c)
        }),
        r matches Some(v) ==> v == digit_value(c) && v < base,
{
    if '0' <= c && c <= '9' {
        Some((c as u64) - ('0' as u64))
    } else if base == 16 && 'a' <= c && c <= 'f' {
        Some((c as u64) - ('a' as u64) + 10)
    } else if base == 16 && 'A' <= c && c <= 'F' {
        Some((c as u64) - ('A' as u64) + 10)
    } else {
        None
    }
}

/// The number written in `chars[from..to]` in base `base`, when it is at
/// most `max`.
pub fn parse_unsigned_in(chars: &[char], from: usize, to: usize, base: u32, max: u64) -> (r: Option<
    u64,
>)
    requires
        from <= to <= chars@.len(),
        base == 10 || base == 16,
        max >= 15,
    ensures
        match r {
            Some(v) => parse_unsigned(chars@.subrange(from as int, to as int), base as int, max as int)
                == Some(v as int),
            None => parse_unsigned(chars@.subrange(from as int, to as int), base as int, max as int)
                is None,
        },
{
    let ghost s = chars@.subrange(from as int, to as int);
    let start = if from < to && chars[from] == '+' {
        from + 1
    } else {
        from
    };
    let ghost d = chars@.subrange(start as int, to as int);
    assert(unsigned_digits(s) =~= d);
    if start == to {
        return None;
    }
    let mut acc: u64 = 0;
    let mut i = start;
    while i < to
        invariant
            max >= 15,
            from <= start < to <= chars@.len(),
            start <= i <= to,
            unsigned_digits(chars@.subrange(from as int, to as int)) == d,
            base == 10 || base == 16,
            d == chars@.subrange(start as int, to as int),
            all_digits(chars@.subrange(start as int, i as int), base as int),
            acc as int == digits_value(chars@.subrange(start as int, i as int), base as int),
            acc <= max,
        decreases to - i,
    {
        let c = chars[i];
        let v: u64 = match digit_of(c, base) {
            Some(v) => v,
            None => {
                proof {
                    assert(d[i - start] == c);
                }
                return None;
            },
        };
        let ghost pre = chars@.subrange(start as int, i as int);
        let ghost next = chars@.subrange(start as int, i + 1);
        proof {
            assert(next.drop_last() =~= pre);
            assert(next.last() == c);
            assert(all_digits(next, base as int)) by {
                assert forall|k: int| 0 <= k < next.len() implies (if base == 16 {
                    is_hex_digit(#[trigger] next[k])
                } else {
                    is_digit(next[k])
                }) by {
                    if k < pre.len() {
                        assert(next[k] == pre[k]);
                    }
                }
            }
        }
        let lim = (max - v) / (base as u64);
        if acc > lim {
            proof {
                assert(acc * base + v > max) by (nonlinear_arith)
                    requires
                        acc > lim,
                        lim == (max - v) as int / (base as int),
                        base == 10 || base == 16,
                        v <= max,
                ;
                assert(digits_value(next, base as int) > max);
                lemma_digits_suffix_grows(d, base as int, i + 1 - start);
                assert(d.subrange(0, i + 1 - start) =~= next);
            }
            return None;
        }
        proof {
            assert(acc * base + v <= max) by (nonlinear_arith)
                requires
                    acc <= lim,
                    lim == (max - v) as int / (base as int),
                    base == 10 || base == 16,
                    v <= max,
            ;
        }
        acc = acc * (base as u64) + v;
        i = i + 1;
    }
    assert(chars@.subrange(start as int, to as int) =~= d);
    Some(acc)
}

/// A number text only grows as digits are added behind it.
proof fn lemma_digits_suffix_grows(d: Seq<char>, base: int, k: int)
    requires
        base == 10 || base == 16,
        0 <= k <= d.len(),
    ensures
        all_digits(d, base) ==> digits_value(d, base) >= digits_value(d.subrange(0, k), base),
    decreases d.len() - k,
{
    if all_digits(d, base) && k < d.len() {
        let t = d.drop_last();
        assert(all_digits(t, base)) by {
            assert forall|i: int| 0 <= i < t.len() implies (if base == 16 {
                is_hex_digit(#[trigger] t[i])
            } else {
                is_digit(t[i])
            }) by {
                assert(t[i] == d[i]);
            }
        }
        lemma_digits_suffix_grows(t, base, k);
        assert(t.subrange(0, k) =~= d.subrange(0, k));
        lemma_digits_value_nonneg(d, base);
    } else if k == d.len() {
        assert(d.subrange(0, k) =~= d);
    }
}

/// Parses a decimal `u8` from `chars[from..to]` as `str::parse::<u8>` does.
pub fn parse_u8_in(chars: &[char], from: usize, to: usize) -> (r: Option<u8>)
    requires
        from <= to <= chars@.len(),
    ensures
        match r {
            Some(v) => parse_unsigned(chars@.subrange(from as int, to as int), 10, 255) == Some(
                v as int,
            ),
            None => parse_unsigned(chars@.subrange(from as int, to as int), 10, 255) is None,
        },
{
    match parse_unsigned_in(chars, from, to, 10, 255) {
        Some(v) => Some(v as u8),
        None => None,
    }
}

/// Parses a decimal `u16` from `chars[from..to]` as `str::parse::<u16>` does.
pub fn parse_u16_in(chars: &[char], from: usize, to: usize) -> (r: Option<u16>)
    requires
        from <= to <= chars@.len(),
    ensures
        match r {
            Some(v) => parse_unsigned(chars@.subrange(from as int, to as int), 10, 65535) == Some(
                v as int,
            ),
            None => parse_unsigned(chars@.subrange(from as int, to as int), 10, 65535) is None,
        },
{
    match parse_unsigned_in(chars, from, to, 10, 65535) {
        Some(v) => Some(v as u16),
        None => None,
    }
}

/// Parses a decimal `u32` from `chars[from..to]` as `str::parse::<u32>` does.
pub fn parse_u32_in(chars: &[char], from: usize, to: usize) -> (r: Option<u32>)
    requires
        from <= to <= chars@.len(),
    ensures
        match r {
            Some(v) => parse_unsigned(chars@.subrange(from as int, to as int), 10, 0xffff_ffff)
                == Some(v as int),
            None => parse_unsigned(chars@.subrange(from as int, to as int), 10, 0xffff_ffff) is None,
        },
{
    match parse_unsigned_in(chars, from, to, 10, 0xffff_ffff) {
        Some(v) => Some(v as u32),
        None => None,
    }
}

/// Parses a hexadecimal `u8` from `chars[from..to]` as
/// `u8::from_str_radix(_, 16)` does.
pub fn parse_hex_u8_in(chars: &[char], from: usize, to: usize) -> (r: Option<u8>)
    requires
        from <= to <= chars@.len(),
    ensures
        match r {
            Some(v) => parse_unsigned(chars@.subrange(from as int, to as int), 16, 255) == Some(
                v as int,
            ),
            None => parse_unsigned(chars@.subrange(from as int, to as int), 16, 255) is None,
        },
{
    match parse_unsigned_in(chars, from, to, 16, 255) {
        Some(v) => Some(v as u8),
        None => None,
    }
}

// ----- writing numbers -----

/// The character of a digit value below 16 (upper-case letters).
pub open spec fn digit_char(d: int) -> char {
    if d < 10 {
        (('0' as int) + d) as char
    } else {
        (('A' as int) + d - 10) as char
    }
}

/// The decimal text of `n`, as `{}` writes it.
pub open spec fn dec(n: nat) -> Seq<char>
    decreases n,
{
    if n < 10 {
        seq![digit_char(n as int)]
    } else {
        dec(n / 10).push(digit_char((n % 10) as int))
    }
}

/// The two upper-case hexadecimal digits of a byte, as `{:02X}` writes it.
pub open spec fn hex2(b: u8) -> Seq<char> {
    seq![digit_char(b as int / 16), digit_char(b as int % 16)]
}

fn digit_char_exec(d: u64) -> (c: char)
    requires
        d < 16,
    ensures
        c == digit_char(d as int),
{
    if d < 10 {
        char_from_u32(('0' as u32) + (d as u32))
    } else {
        char_from_u32(('A' as u32) + (d as u32) - 10)
    }
}

fn char_from_u32(v: u32) -> (c: char)
    requires
        ('0' as u32) <= v <= ('F' as u32),
    ensures
        c as u32 == v,
{
    let mut c = '0';
    while (c as u32) < v
        invariant
            ('0' as u32) <= (c as u32) <= v <= ('F' as u32),
        decreases v - (c as u32),
    {
        c = next_char(c);
    }
    c
}

fn next_char(c: char) -> (r: char)
    requires
        ('0' as u32) <= (c as u32) < ('F' as u32),
    ensures
        r as u32 == c as u32 + 1,
{
    match c {
        '0' => '1',
        '1' => '2',
        '2' => '3',
        '3' => '4',
        '4' => '5',
        '5' => '6',
        '6' => '7',
        '7' => '8',
        '8' => '9',
        '9' => ':',
        ':' => ';',
        ';' => '<',
        '<' => '=',
        '=' => '>',
        '>' => '?',
        '?' => '@',
        '@' => 'A',
        'A' => 'B',
        'B' => 'C',
        'C' => 'D',
        'D' => 'E',
        _ => 'F',
    }
}

/// Appends the decimal text of `n` to `out`.
pub fn push_dec(out: &mut String, n: u64)
    ensures
        final(out)@ == old(out)@ + dec(n as nat),
    decreases n,
{
    if n >= 10 {
        push_dec(out, n / 10);
        push_char(out, digit_char_exec(n % 10));
        assert(final(out)@ =~= old(out)@ + dec(n as nat));
    } else {
        push_char(out, digit_char_exec(n));
        assert(final(out)@ =~= old(out)@ + dec(n as nat));
    }
}

/// Appends the two upper-case hexadecimal digits of `b` to `out`.
pub fn push_hex2(out: &mut String, b: u8)
    ensures
        final(out)@ == old(out)@ + hex2(b),
{
    push_char(out, digit_char_exec((b / 16) as u64));
    push_char(out, digit_char_exec((b % 16) as u64));
    assert(final(out)@ =~= old(out)@ + hex2(b));
}

// ----- reading back what was written -----

/// A digit character reads back as its value.
pub proof fn lemma_digit_char(d: int)
    requires
        0 <= d < 16,
    ensures
        digit_value(digit_char(d)) == d,
        is_hex_digit(digit_char(d)),
        d < 10 ==> is_digit(digit_char(d)),
        digit_char(d) != '+',
{
    if d < 10 {
        let c = (('0' as int) + d) as char;
        assert(c as int == ('0' as int) + d);
    } else {
        let c = (('A' as int) + d - 10) as char;
        assert(c as int == ('A' as int) + d - 10);
    }
}

/// The decimal text of a number is digits only and reads back as the
/// number.
pub proof fn lemma_dec_digits(n: nat)
    ensures
        dec(n).len() > 0,
        all_digits(dec(n), 10),
        digits_value(dec(n), 10) == n,
        dec(n)[0] != '+',
    decreases n,
{
    lemma_digit_char((n % 10) as int);
    if n < 10 {
        assert(dec(n).drop_last() =~= Seq::<char>::empty());
        assert(dec(n).last() == digit_char(n as int));
        assert(n % 10 == n);
        assert(digits_value(Seq::<char>::empty(), 10) == 0);
        assert(digits_value(dec(n), 10) == n);
    }
    if n >= 10 {
        lemma_dec_digits(n / 10);
        let d = dec(n);
        assert(d.last() == digit_char((n % 10) as int));
        assert(n == (n / 10) * 10 + n % 10) by (nonlinear_arith);
        assert(d.drop_last() =~= dec(n / 10));
        assert(digits_value(d.drop_last(), 10) == n / 10);
        assert(digit_value(d.last()) == n % 10);
        assert(digits_value(d, 10) == n);
        assert(d.drop_last() =~= dec(n / 10));
        assert forall|i: int| 0 <= i < d.len() implies is_digit(#[trigger] d[i]) by {
            if i < d.len() - 1 {
                assert(d[i] == dec(n / 10)[i]);
            }
        }
        assert(d[0] == dec(n / 10)[0]);
    }
}

/// The decimal text of a number not above `max` parses back to it.
pub proof fn lemma_parse_dec(n: nat, max: int)
    requires
        n <= max,
    ensures
        parse_unsigned(dec(n), 10, max) == Some(n as int),
{
    lemma_dec_digits(n);
}

/// The decimal text of a number has no whitespace, `/` or `:` in it.
pub proof fn lemma_dec_plain(n: nat)
    ensures
        forall|i: int| 0 <= i < dec(n).len() ==> is_digit(#[trigger] dec(n)[i]),
{
    lemma_dec_digits(n);
}

/// The two hexadecimal digits of a byte parse back to it.
pub proof fn lemma_parse_hex2(b: u8)
    ensures
        parse_unsigned(hex2(b), 16, 255) == Some(b as int),
        forall|i: int| 0 <= i < 2 ==> is_hex_digit(#[trigger] hex2(b)[i]),
        hex2(b).len() == 2,
{
    let h = hex2(b);
    lemma_digit_char(b as int / 16);
    lemma_digit_char(b as int % 16);
    assert(h.drop_last() =~= seq![h[0]]);
    assert(seq![h[0]].drop_last() =~= Seq::<char>::empty());
    assert(unsigned_digits(h) =~= h);
    assert(is_hex_digit(h[0]) && is_hex_digit(h[1]));
    assert(all_digits(h, 16));
    assert(b as int == (b as int / 16) * 16 + b as int % 16) by (nonlinear_arith);
    assert(seq![h[0]].last() == h[0]);
    assert(digits_value(seq![h[0]].drop_last(), 16) == 0);
    assert(digits_value(seq![h[0]], 16) == digit_value(h[0]));
}

} // verus!
