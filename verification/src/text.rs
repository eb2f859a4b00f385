//! Text helpers: splitting at `-`, and parsing and writing unsigned numbers.
use vstd::prelude::*;
use vstd::string::*;

verus! {

/// Value of `c` as a digit in base `radix` (`0-9`, then `a-z` or `A-Z` for
/// 10 to 35), where it is one.
pub open spec fn digit_value(c: char, radix: nat) -> Option<nat> {
    let d: int = if '0' <= c && c <= '9' {
        c as int - '0' as int
    } else if 'a' <= c && c <= 'z' {
        c as int - 'a' as int + 10
    } else if 'A' <= c && c <= 'Z' {
        c as int - 'A' as int + 10
    } else {
        radix as int
    };
    if d < radix { Some(d as nat) } else { None }
}

/// Value of a string of digits in base `radix`, most significant first
/// (`Some(0)` for the empty string, `None` if some character is no digit).
pub open spec fn digits_value(s: Seq<char>, radix: nat) -> Option<nat>
    decreases s.len(),
{
    if s.len() == 0 {
        Some(0)
    } else {
        match (digits_value(s.drop_last(), radix), digit_value(s.last(), radix)) {
            (Some(v), Some(d)) => Some(v * radix + d),
            _ => None,
        }
    }
}

/// What parsing `s` in base `radix` into an unsigned integer type whose
/// largest value is `max` yields (as `from_str_radix` does): an optional
/// leading `+`, then at least one digit, and a value that fits.
pub open spec fn parse_unsigned(s: Seq<char>, radix: nat, max: nat) -> Option<nat> {
    let digits = if s.len() > 0 && s[0] == '+' { s.drop_first() } else { s };
    if digits.len() == 0 {
        None
    } else {
        match digits_value(digits, radix) {
            Some(v) => if v <= max { Some(v) } else { None },
            None => None,
        }
    }
}

/// What parsing `s` in base 16 into an unsigned integer type whose largest
/// value is `max` yields.
pub open spec fn parse_hex(s: Seq<char>, max: nat) -> Option<nat> {
    parse_unsigned(s, 16, max)
}

proof fn lemma_hex_prefix(s: Seq<char>, k: int)
    requires
        0 <= k <= s.len(),
    ensures
        digits_value(s.take(k), 16) is None ==> digits_value(s, 16) is None,
        digits_value(s.take(k), 16) is Some && digits_value(s, 16) is Some ==> digits_value(s, 16)->0 >= digits_value(s.take(k), 16)->0,
    decreases s.len(),
{
    if k == s.len() {
        assert(s.take(k) == s);
    } else {
        assert(s.drop_last().take(k) == s.take(k));
        lemma_hex_prefix(s.drop_last(), k);
    }
}

/// Value of `c` as a base-16 digit.
fn hex_digit_of(c: char) -> (d: Option<u8>)
    ensures
        match digit_value(c, 16) {
            Some(v) => d == Some(v as u8) && v < 16,
            None => d is None,
        },
{
    if '0' <= c && c <= '9' {
        Some(((c as u32) - ('0' as u32)) as u8)
    } else if 'a' <= c && c <= 'f' {
        Some(((c as u32) - ('a' as u32) + 10) as u8)
    } else if 'A' <= c && c <= 'F' {
        Some(((c as u32) - ('A' as u32) + 10) as u8)
    } else {
        None
    }
}

/// Parses `s` in base 16 into a `u8`, as `u8::from_str_radix(s, 16)` does.
pub fn parse_hex_u8(s: &str) -> (r: Option<u8>)
    ensures
        match parse_hex(s@, 255) {
            Some(v) => r == Some(v as u8),
            None => r is None,
        },
{
    let n = s.unicode_len();
    let mut start: usize = 0;
    if n > 0 && s.get_char(0) == '+' {
        start = 1;
    }
    let ghost digits = s@.subrange(start as int, n as int);
    proof {
        if n > 0 && s@[0] == '+' {
            assert(digits == s@.drop_first());
        } else {
            assert(digits == s@);
        }
    }
    if start == n {
        return None;
    }
    let mut i: usize = start;
    let mut v: u16 = 0;
    proof {
        assert(digits.take(0) == Seq::<char>::empty());
    }
    while i < n
        invariant
            n == s@.len(),
            start <= i <= n,
            digits == s@.subrange(start as int, n as int),
            digits.len() > 0,
            parse_hex(s@, 255) == (match digits_value(digits, 16) {
                Some(w) => if w <= 255 { Some(w) } else { None },
                None => None,
            }),
            v <= 255,
            digits_value(digits.take(i - start), 16) == Some(v as nat),
        decreases n - i,
    {
        let c = s.get_char(i);
        let ghost j: int = i - start;
        proof {
            assert(digits.take(j + 1).drop_last() == digits.take(j));
            assert(digits.take(j + 1).last() == c);
        }
        match hex_digit_of(c) {
            None => {
                proof {
                    lemma_hex_prefix(digits, j + 1);
                }
                return None;
            },
            Some(d) => {
                v = v * 16 + d as u16;
                if v > 255 {
                    proof {
                        lemma_hex_prefix(digits, j + 1);
                    }
                    return None;
                }
            },
        }
        i = i + 1;
    }
    proof {
        assert(digits.take(n - start) == digits);
    }
    Some(v as u8)
}

/// The pieces of `s` between the `-` characters, in order (one piece more
/// than there are separators; pieces may be empty).
pub open spec fn split_dash(s: Seq<char>) -> Seq<Seq<char>>
    decreases s.len(),
{
    if s.len() == 0 {
        seq![Seq::<char>::empty()]
    } else {
        let prev = split_dash(s.drop_last());
        if s.last() == '-' {
            prev.push(Seq::<char>::empty())
        } else {
            prev.update(prev.len() - 1, prev.last().push(s.last()))
        }
    }
}

proof fn lemma_split_dash_nonempty(s: Seq<char>)
    ensures
        split_dash(s).len() >= 1,
    decreases s.len(),
{
    if s.len() > 0 {
        lemma_split_dash_nonempty(s.drop_last());
    }
}

/// Views of a sequence of string slices.
pub open spec fn str_views(parts: Seq<&str>) -> Seq<Seq<char>> {
    parts.map_values(|p: &str| p@)
}

/// Splits `s` at every `-`.
pub fn split_on_dash(s: &str) -> (parts: Vec<&str>)
    ensures
        str_views(parts@) == split_dash(s@),
{
    let n = s.unicode_len();
    let mut parts: Vec<&str> = Vec::new();
    let mut start: usize = 0;
    let mut i: usize = 0;
    proof {
        assert(s@.take(0) == Seq::<char>::empty());
        assert(str_views(parts@) == Seq::<Seq<char>>::empty());
        assert(s@.subrange(0, 0) == Seq::<char>::empty());
    }
    while i < n
        invariant
            n == s@.len(),
            start <= i <= n,
            str_views(parts@).push(s@.subrange(start as int, i as int)) == split_dash(
                s@.take(i as int),
            ),
        decreases n - i,
    {
        proof {
            lemma_split_dash_nonempty(s@.take(i as int));
            assert(s@.take(i as int + 1).drop_last() == s@.take(i as int));
            assert(s@.take(i as int + 1).last() == s@[i as int]);
        }
        let c = s.get_char(i);
        if c == '-' {
            let piece = s.substring_char(start, i);
            let ghost before = parts@;
            parts.push(piece);
            proof {
                assert(str_views(parts@) == str_views(before).push(piece@));
                assert(s@.subrange((i + 1) as int, (i + 1) as int) == Seq::<char>::empty());
            }
            start = i + 1;
        } else {
            proof {
                assert(s@.subrange(start as int, i as int).push(c) == s@.subrange(
                    start as int,
                    i as int + 1,
                ));
            }
        }
        i = i + 1;
    }
    let last = s.substring_char(start, n);
    let ghost before = parts@;
    parts.push(last);
    proof {
        assert(s@.take(n as int) == s@);
        assert(str_views(parts@) == str_views(before).push(last@));
    }
    parts
}

/// The decimal digit character for `d` (below 10).
pub open spec fn digit_char(d: nat) -> char {
    ((d + '0' as nat) as int) as char
}

/// The decimal representation of `n`, without leading zeros.
pub open spec fn decimal(n: nat) -> Seq<char>
    decreases n,
{
    if n < 10 {
        seq![digit_char(n)]
    } else {
        decimal(n / 10).push(digit_char(n % 10))
    }
}

fn digit_str(d: u64) -> (s: &'static str)
    requires
        d < 10,
    ensures
        s@ == seq![digit_char(d as nat)],
{
    proof {
        reveal_strlit("0");
        reveal_strlit("1");
        reveal_strlit("2");
        reveal_strlit("3");
        reveal_strlit("4");
        reveal_strlit("5");
        reveal_strlit("6");
        reveal_strlit("7");
        reveal_strlit("8");
        reveal_strlit("9");
    }
    if d == 0 {
        "0"
    } else if d == 1 {
        "1"
    } else if d == 2 {
        "2"
    } else if d == 3 {
        "3"
    } else if d == 4 {
        "4"
    } else if d == 5 {
        "5"
    } else if d == 6 {
        "6"
    } else if d == 7 {
        "7"
    } else if d == 8 {
        "8"
    } else {
        "9"
    }
}

/// `n` written in decimal, as `n.to_string()`.
pub fn decimal_string(n: u64) -> (s: String)
    ensures
        s@ == decimal(n as nat),
    decreases n,
{
    if n < 10 {
        String::from_str(digit_str(n))
    } else {
        decimal_string(n / 10).concat(digit_str(n % 10))
    }
}

} // verus!
