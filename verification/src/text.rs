//! Characters and hexadecimal byte tokens: the small vocabulary shared by
//! the exported declarations, the configuration record and their parsers.

use vstd::prelude::*;
use vstd::string::StringExecFns;

verus! {

/// The characters of `s`, in order.
pub fn to_chars(s: &str) -> (out: Vec<char>)
    ensures
        out@ == s@,
{
    let mut out: Vec<char> = Vec::new();
    let iter = s.chars();
    for c in it: iter
        invariant
            out@ == it.seq().take(it.index@),
    {
        out.push(c);
    }
    out
}

/// The sixteen hexadecimal digits, lower case, by value.
pub open spec fn lower_digits() -> Seq<char> {
    seq!['0', '1', '2', '3', '4', '5', '6', '7', '8', '9', 'a', 'b', 'c', 'd', 'e', 'f']
}

/// The sixteen hexadecimal digits, upper case, by value.
pub open spec fn upper_digits() -> Seq<char> {
    seq!['0', '1', '2', '3', '4', '5', '6', '7', '8', '9', 'A', 'B', 'C', 'D', 'E', 'F']
}

/// A byte as `0x` and two digits taken from `digits`.
pub open spec fn hex_token_with(digits: Seq<char>, b: u8) -> Seq<char> {
    seq!['0', 'x', digits[b as int / 16], digits[b as int % 16]]
}

/// A byte as a lower-case token, such as `0x3f`.
pub open spec fn hex_token(b: u8) -> Seq<char> {
    hex_token_with(lower_digits(), b)
}

/// A byte as an upper-case token, such as `0x3F`.
pub open spec fn hex_token_upper(b: u8) -> Seq<char> {
    hex_token_with(upper_digits(), b)
}

/// The lower-case digit of value `n` as a one-character string.
fn lower_digit(n: u8) -> (s: &'static str)
    requires
        n < 16,
    ensures
        s@ == seq![lower_digits()[n as int]],
{
    proof {
        reveal_strlit("0");
        reveal_strlit("1");
        reveal_strlit("2");
        reveal_strlit("3");
        reveal_strlit("4");
        reveal_strlit("5");
        reveal_strlit("6");
        reveal_strlit("7");
        reveal_strlit("8");
        reveal_strlit("9");
        reveal_strlit("a");
        reveal_strlit("b");
        reveal_strlit("c");
        reveal_strlit("d");
        reveal_strlit("e");
        reveal_strlit("f");
    }
    let s = match n {
        0 => "0",
        1 => "1",
        2 => "2",
        3 => "3",
        4 => "4",
        5 => "5",
        6 => "6",
        7 => "7",
        8 => "8",
        9 => "9",
        10 => "a",
        11 => "b",
        12 => "c",
        13 => "d",
        14 => "e",
        _ => "f",
    };
    s
}

/// The upper-case digit of value `n` as a one-character string.
fn upper_digit(n: u8) -> (s: &'static str)
    requires
        n < 16,
    ensures
        s@ == seq![upper_digits()[n as int]],
{
    proof {
        reveal_strlit("A");
        reveal_strlit("B");
        reveal_strlit("C");
        reveal_strlit("D");
        reveal_strlit("E");
        reveal_strlit("F");
    }
    if n < 10 {
        let s = lower_digit(n);
        s
    } else {
        let s = match n {
            10 => "A",
            11 => "B",
            12 => "C",
            13 => "D",
            14 => "E",
            _ => "F",
        };
        s
    }
}

/// Appends the lower-case token of `b` to `out`.
pub fn push_hex_token(out: &mut String, b: u8)
    ensures
        final(out)@ == old(out)@ + hex_token(b),
{
    proof {
        reveal_strlit("0x");
    }
    out.append("0x");
    out.append(lower_digit(b / 16));
    out.append(lower_digit(b % 16));
}

/// Appends the upper-case token of `b` to `out`.
pub fn push_hex_token_upper(out: &mut String, b: u8)
    ensures
        final(out)@ == old(out)@ + hex_token_upper(b),
{
    proof {
        reveal_strlit("0x");
    }
    out.append("0x");
    out.append(upper_digit(b / 16));
    out.append(upper_digit(b % 16));
}

/// The value of a hexadecimal digit of either case; `None` for any other
/// character.
pub open spec fn hex_digit_value(c: char) -> Option<int> {
    if '0' <= c <= '9' {
        Some(c as int - '0' as int)
    } else if 'a' <= c <= 'f' {
        Some(c as int - 'a' as int + 10)
    } else if 'A' <= c <= 'F' {
        Some(c as int - 'A' as int + 10)
    } else {
        None
    }
}

/// The value of the hexadecimal digit `c`, if it is one.
pub fn digit_value(c: char) -> (v: Option<u8>)
    ensures
        match v {
            Some(d) => hex_digit_value(c) == Some(d as int) && d < 16,
            None => hex_digit_value(c) is None,
        },
{
    let n: u32 = c as u32;
    if 48 <= n && n <= 57 {
        Some((n - 48) as u8)
    } else if 97 <= n && n <= 102 {
        Some((n - 97 + 10) as u8)
    } else if 65 <= n && n <= 70 {
        Some((n - 65 + 10) as u8)
    } else {
        None
    }
}

/// Whether every character of `s` is a hexadecimal digit.
pub open spec fn all_hex_digits(s: Seq<char>) -> bool {
    forall|i: int| 0 <= i < s.len() ==> (#[trigger] hex_digit_value(s[i])) is Some
}

/// The number that the hexadecimal digits `s` write, most significant
/// digit first; a character that is no digit counts as zero.
pub open spec fn hex_value(s: Seq<char>) -> int
    decreases s.len(),
{
    if s.len() == 0 {
        0
    } else {
        let last = match hex_digit_value(s.last()) {
            Some(d) => d,
            None => 0,
        };
        16 * hex_value(s.drop_last()) + last
    }
}

/// What is left of `s` once one leading plus sign is taken off.
pub open spec fn unsigned_digits(s: Seq<char>) -> Seq<char> {
    if s.len() > 0 && s[0] == '+' {
        s.skip(1)
    } else {
        s
    }
}

/// The byte that `s` writes in radix 16: an optional plus sign, then one or
/// more hexadecimal digits of either case whose value is at most 255.
/// Anything else, the empty string included, writes no byte.
pub open spec fn radix16_byte(s: Seq<char>) -> Option<u8> {
    let digits = unsigned_digits(s);
    if digits.len() > 0 && all_hex_digits(digits) && hex_value(digits) <= 255 {
        Some(hex_value(digits) as u8)
    } else {
        None
    }
}

/// Parses `s[from..to]` as a byte in radix 16.
pub fn parse_radix16(s: &[char], from: usize, to: usize) -> (v: Option<u8>)
    requires
        from <= to <= s@.len(),
    ensures
        v == radix16_byte(s@.subrange(from as int, to as int)),
{
    let mut start = from;
    if from < to && s[from] == '+' {
        start = from + 1;
    }
    let ghost digits = unsigned_digits(s@.subrange(from as int, to as int));
    if start == to {
        return None;
    }
    // `capped` follows the value of the digits read so far, held at 256 once
    // the value has gone past a byte.
    let mut capped: u32 = 0;
    let mut i: usize = start;
    while i < to
        invariant
            start <= i <= to,
            to <= s@.len(),
            from <= start,
            digits == s@.subrange(start as int, to as int),
            digits == unsigned_digits(s@.subrange(from as int, to as int)),
            all_hex_digits(digits.take(i - start)),
            capped <= 256,
            capped == if hex_value(digits.take(i - start)) < 256 {
                hex_value(digits.take(i - start))
            } else {
                256
            },
            hex_value(digits.take(i - start)) >= 0,
        decreases to - i,
    {
        let ghost seen = digits.take(i - start);
        let ghost next = digits.take(i - start + 1);
        assert(next.drop_last() =~= seen);
        match digit_value(s[i]) {
            None => {
                assert(hex_digit_value(digits[i - start]) is None);
                return None;
            },
            Some(d) => {
                assert(all_hex_digits(next)) by {
                    assert forall|j: int| 0 <= j < seen.len() implies (#[trigger] hex_digit_value(
                        next[j],
                    )) is Some by {
                        assert(next[j] == seen[j]);
                    }
                }
                let wide: u32 = capped * 16 + d as u32;
                capped = if wide < 256 {
                    wide
                } else {
                    256
                };
            },
        }
        i += 1;
    }
    assert(digits.take(to - start) =~= digits);
    if capped < 256 {
        Some(capped as u8)
    } else {
        None
    }
}

/// Whether `c` is white space: one of the characters that carry the Unicode
/// property `White_Space`.
pub open spec fn is_white_space(c: char) -> bool {
    let n = c as u32;
    ||| 0x09 <= n <= 0x0d
    ||| n == 0x20
    ||| n == 0x85
    ||| n == 0xa0
    ||| n == 0x1680
    ||| 0x2000 <= n <= 0x200a
    ||| n == 0x2028
    ||| n == 0x2029
    ||| n == 0x202f
    ||| n == 0x205f
    ||| n == 0x3000
}

/// Tells whether `c` is white space.
pub fn is_space(c: char) -> (r: bool)
    ensures
        r == is_white_space(c),
{
    let n: u32 = c as u32;
    (0x09 <= n && n <= 0x0d) || n == 0x20 || n == 0x85 || n == 0xa0 || n == 0x1680 || (0x2000 <= n
        && n <= 0x200a) || n == 0x2028 || n == 0x2029 || n == 0x202f || n == 0x205f || n == 0x3000
}

/// `s` without its leading white space.
pub open spec fn trim_start(s: Seq<char>) -> Seq<char>
    decreases s.len(),
{
    if s.len() > 0 && is_white_space(s[0]) {
        trim_start(s.skip(1))
    } else {
        s
    }
}

/// `s` without its trailing white space.
pub open spec fn trim_end(s: Seq<char>) -> Seq<char>
    decreases s.len(),
{
    if s.len() > 0 && is_white_space(s.last()) {
        trim_end(s.drop_last())
    } else {
        s
    }
}

/// `s` without its leading and trailing white space.
pub open spec fn trimmed(s: Seq<char>) -> Seq<char> {
    trim_end(trim_start(s))
}

/// Finds the bounds of `s[from..to]` without the white space around it.
pub fn trim_range(s: &[char], from: usize, to: usize) -> (bounds: (usize, usize))
    requires
        from <= to <= s@.len(),
    ensures
        from <= bounds.0 <= bounds.1 <= to,
        s@.subrange(bounds.0 as int, bounds.1 as int) == trimmed(
            s@.subrange(from as int, to as int),
        ),
{
    let mut a = from;
    while a < to && is_space(s[a])
        invariant
            from <= a <= to,
            to <= s@.len(),
            trim_start(s@.subrange(from as int, to as int)) == trim_start(
                s@.subrange(a as int, to as int),
            ),
        decreases to - a,
    {
        assert(s@.subrange(a as int, to as int).skip(1) =~= s@.subrange(a + 1, to as int));
        a += 1;
    }
    let mut b = to;
    while a < b && is_space(s[b - 1])
        invariant
            a <= b <= to,
            to <= s@.len(),
            trim_end(s@.subrange(a as int, to as int)) == trim_end(
                s@.subrange(a as int, b as int),
            ),
        decreases b - a,
    {
        assert(s@.subrange(a as int, b as int).drop_last() =~= s@.subrange(a as int, b - 1));
        b -= 1;
    }
    (a, b)
}

/// Whether `prefix` stands at the start of `s`.
pub open spec fn starts_with(s: Seq<char>, prefix: Seq<char>) -> bool {
    s.len() >= prefix.len() && s.subrange(0, prefix.len() as int) =~= prefix
}

/// Whether `t` starts with `0x` or `0X`.
pub open spec fn has_hex_prefix(t: Seq<char>) -> bool {
    t.len() >= 2 && t[0] == '0' && (t[1] == 'x' || t[1] == 'X')
}

/// The digits of a record token: the token without its prefix `0x` or
/// `0X`, or the whole token where it has neither.
pub open spec fn token_digits(token: Seq<char>) -> Seq<char> {
    if has_hex_prefix(token) {
        token.skip(2)
    } else {
        token
    }
}

/// The byte that a record token writes, if it writes one.
pub open spec fn token_byte(token: Seq<char>) -> Option<u8> {
    radix16_byte(token_digits(token))
}

/// Reads one record token.
pub fn parse_token(token: &str) -> (v: Option<u8>)
    ensures
        v == token_byte(token@),
{
    let chars = to_chars(token);
    let s = chars.as_slice();
    let n = s.len();
    let start: usize = if n >= 2 && s[0] == '0' && (s[1] == 'x' || s[1] == 'X') {
        2
    } else {
        0
    };
    assert(s@.subrange(start as int, n as int) =~= token_digits(token@));
    parse_radix16(s, start, n)
}

/// Renders one record token: the byte's lower-case token as a string.
pub fn render_token(b: u8) -> (token: String)
    ensures
        token@ == hex_token(b),
{
    let mut token = String::new();
    push_hex_token(&mut token, b);
    token
}

/// Every hexadecimal digit has the value it stands for, in either case.
pub proof fn lemma_digit_values(n: int)
    requires
        0 <= n < 16,
    ensures
        hex_digit_value(lower_digits()[n]) == Some(n),
        hex_digit_value(upper_digits()[n]) == Some(n),
{
}

/// Two hexadecimal digits after nothing but an optional `0x` write the byte
/// whose token they come from: reading the digits of a byte's token in
/// radix 16 gives the byte back.
pub proof fn lemma_radix16_reads_digits(digits: Seq<char>, b: u8)
    requires
        digits == lower_digits() || digits == upper_digits(),
    ensures
        radix16_byte(hex_token_with(digits, b).skip(2)) == Some(b),
{
    let hi = b as int / 16;
    let lo = b as int % 16;
    let pair = hex_token_with(digits, b).skip(2);
    lemma_digit_values(hi);
    lemma_digit_values(lo);
    assert(hex_value(pair.drop_last().drop_last()) == 0);
    assert(hex_value(pair.drop_last()) == hi);
}

/// A record token that was rendered from a byte reads back as that byte.
pub proof fn lemma_token_round_trip(b: u8)
    ensures
        token_byte(hex_token(b)) == Some(b),
{
    lemma_radix16_reads_digits(lower_digits(), b);
}

} // verus!
