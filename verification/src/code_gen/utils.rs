//! Text helpers of the schema compiler.

use vstd::prelude::*;
use vstd::string::{StrSliceExecFns, StringExecFns};

verus! {

/// The first place at or after `from` where `c` stands in `s`, or the length
/// of `s` where it stands nowhere.
pub open spec fn find_from(s: Seq<char>, c: char, from: int) -> int
    decreases s.len() - from,
{
    if from >= s.len() {
        s.len() as int
    } else if s[from] == c {
        from
    } else {
        find_from(s, c, from + 1)
    }
}

/// `find_from` finds the first occurrence, and finds one wherever there is one.
pub proof fn lemma_find_from(s: Seq<char>, c: char, from: int)
    requires
        0 <= from <= s.len(),
    ensures
        from <= find_from(s, c, from) <= s.len(),
        find_from(s, c, from) < s.len() ==> s[find_from(s, c, from)] == c,
        forall|i: int| from <= i < find_from(s, c, from) ==> s[i] != c,
    decreases s.len() - from,
{
    if from < s.len() && s[from] != c {
        lemma_find_from(s, c, from + 1);
    }
}

/// `c` stands in `s` exactly where a search from the start finds it.
pub proof fn lemma_find_contains(s: Seq<char>, c: char)
    ensures
        s.contains(c) <==> find_from(s, c, 0) < s.len(),
{
    lemma_find_from(s, c, 0);
    if s.contains(c) {
        let i = choose|i: int| 0 <= i < s.len() && s[i] == c;
        assert(s[i] == c);
    }
}

/// Whether two strings hold the same characters.
pub fn str_eq(a: &str, b: &str) -> (r: bool)
    ensures
        r == (a@ == b@),
{
    a.to_owned() == b.to_owned()
}

/// The first place at or after `from` where `c` stands in `s`.
pub fn find_char(s: &str, c: char, from: usize) -> (r: usize)
    requires
        from <= s@.len(),
    ensures
        r == find_from(s@, c, from as int),
        from <= r <= s@.len(),
{
    let len = s.unicode_len();
    let mut i = from;
    proof {
        lemma_find_from(s@, c, from as int);
    }
    while i < len
        invariant
            from <= i <= len,
            len == s@.len(),
            find_from(s@, c, from as int) == find_from(s@, c, i as int),
        decreases len - i,
    {
        if s.get_char(i) == c {
            return i;
        }
        i += 1;
    }
    i
}

/// Whether `c` stands in `s`.
pub fn contains_char(s: &str, c: char) -> (r: bool)
    ensures
        r == s@.contains(c),
{
    proof {
        lemma_find_contains(s@, c);
    }
    find_char(s, c, 0) < s.unicode_len()
}

/// The character of one hexadecimal digit: `0` to `9`, then `a` to `f`.
pub open spec fn hex_digit(d: nat) -> char {
    if d < 10 {
        (48 + d) as char
    } else {
        (87 + d) as char
    }
}

/// `n` as four hexadecimal digits, lower case, most significant first.
pub open spec fn hex4(n: nat) -> Seq<char> {
    seq![
        hex_digit(n / 0x1000 % 16),
        hex_digit(n / 0x100 % 16),
        hex_digit(n / 0x10 % 16),
        hex_digit(n % 16),
    ]
}

/// The number that a hexadecimal digit stands for.
pub open spec fn hex_digit_value(c: char) -> nat {
    if '0' <= c && c <= '9' {
        (c as int - 48) as nat
    } else {
        (c as int - 87) as nat
    }
}

/// The number that four hexadecimal digits spell.
pub open spec fn hex4_value(digits: Seq<char>) -> nat {
    hex_digit_value(digits[0]) * 0x1000 + hex_digit_value(digits[1]) * 0x100 + hex_digit_value(
        digits[2],
    ) * 0x10 + hex_digit_value(digits[3])
}

/// Four digits are written for a number below `0x1_0000`, and spell it.
pub proof fn lemma_hex4(n: nat)
    requires
        n < 0x1_0000,
    ensures
        hex4(n).len() == 4,
        hex4_value(hex4(n)) == n,
{
    assert forall|d: nat| d < 16 implies hex_digit_value(#[trigger] hex_digit(d)) == d by {
        if d < 10 {
            assert(hex_digit(d) as int == 48 + d);
        } else {
            assert(hex_digit(d) as int == 87 + d);
        }
    }
    assert(hex4(n)[0] == hex_digit(n / 0x1000 % 16));
    assert(hex4(n)[1] == hex_digit(n / 0x100 % 16));
    assert(hex4(n)[2] == hex_digit(n / 0x10 % 16));
    assert(hex4(n)[3] == hex_digit(n % 16));
}

/// The absolute value of a 32-bit integer.
pub open spec fn magnitude(num: i32) -> nat {
    if num < 0 {
        (-(num as int)) as nat
    } else {
        num as nat
    }
}

/// The text of `num` as a Rust literal: its sign, then its magnitude as
/// eight hexadecimal digits in two groups, then the suffix `i32`.
pub open spec fn spec_i32_suffixed(num: i32) -> Seq<char> {
    (if num < 0 {
        "-0x"@
    } else {
        "0x"@
    }) + hex4(magnitude(num) / 0x1_0000) + "_"@ + hex4(magnitude(num) % 0x1_0000) + "i32"@
}

/// The digits of a literal spell the magnitude of its number: the upper
/// four its upper half, the lower four its lower half.
pub proof fn lemma_i32_suffixed(num: i32)
    ensures
        hex4_value(hex4(magnitude(num) / 0x1_0000)) * 0x1_0000 + hex4_value(
            hex4(magnitude(num) % 0x1_0000),
        ) == magnitude(num),
        num < 0 ==> spec_i32_suffixed(num).subrange(0, 3) == "-0x"@,
        num >= 0 ==> spec_i32_suffixed(num).subrange(0, 2) == "0x"@,
{
    lemma_hex4(magnitude(num) / 0x1_0000);
    lemma_hex4(magnitude(num) % 0x1_0000);
    reveal_strlit("-0x");
    reveal_strlit("0x");
    if num < 0 {
        assert(spec_i32_suffixed(num).subrange(0, 3) =~= "-0x"@);
    } else {
        assert(spec_i32_suffixed(num).subrange(0, 2) =~= "0x"@);
    }
}

/// The text of one hexadecimal digit.
fn hex_text(d: u32) -> (r: &'static str)
    requires
        d < 16,
    ensures
        r@ == seq![hex_digit(d as nat)],
{
    proof {
        reveal_strlit("0");
        reveal_strlit("1");
        reveal_strlit("2");
        reveal_strlit("3");
        reveal_strlit("4");
        reveal_strlit("5");
        reveal_strlit("6");
        reveal_strlit("7");
        reveal_strlit("8");
        reveal_strlit("9");
        reveal_strlit("a");
        reveal_strlit("b");
        reveal_strlit("c");
        reveal_strlit("d");
        reveal_strlit("e");
        reveal_strlit("f");
    }
    let r = match d {
        0 => "0",
        1 => "1",
        2 => "2",
        3 => "3",
        4 => "4",
        5 => "5",
        6 => "6",
        7 => "7",
        8 => "8",
        9 => "9",
        10 => "a",
        11 => "b",
        12 => "c",
        13 => "d",
        14 => "e",
        _ => "f",
    };
    assert(r@ =~= seq![hex_digit(d as nat)]);
    r
}

fn push_hex4(out: &mut String, n: u32)
    requires
        n < 0x1_0000,
    ensures
        final(out)@ == old(out)@ + hex4(n as nat),
{
    out.append(hex_text(n / 0x1000 % 16));
    out.append(hex_text(n / 0x100 % 16));
    out.append(hex_text(n / 0x10 % 16));
    out.append(hex_text(n % 16));
    assert(out@ =~= old(out)@ + hex4(n as nat));
}

/// The text of `num` as a Rust literal of type `i32`.
pub fn i32_suffixed(num: i32) -> (r: String)
    ensures
        r@ == spec_i32_suffixed(num),
{
    let mut out = if num < 0 {
        String::from_str("-0x")
    } else {
        String::from_str("0x")
    };
    let abs: u32 = if num == i32::MIN {
        0x8000_0000
    } else if num < 0 {
        (-num) as u32
    } else {
        num as u32
    };
    push_hex4(&mut out, abs / 0x1_0000);
    out.append("_");
    push_hex4(&mut out, abs % 0x1_0000);
    out.append("i32");
    out
}

} // verus!
