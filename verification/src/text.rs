//! Text operations that the network provisioner is built from: trimming a
//! line end, finding a separator, and reading and writing decimal numbers.

use vstd::prelude::*;

verus! {

/// `s` without one trailing line feed, if it ends in one.
pub open spec fn trim_newline(s: Seq<char>) -> Seq<char> {
    if s.len() > 0 && s.last() == '\n' {
        s.drop_last()
    } else {
        s
    }
}

/// Removes one trailing line feed.
pub fn strip_newline(s: &str) -> (r: &str)
    ensures
        r@ == trim_newline(s@),
{
    let n: usize = s.unicode_len();
    if n > 0 && s.get_char(n - 1) == '\n' {
        s.substring_char(0, n - 1)
    } else {
        s
    }
}

/// The first position at or after `from` where `s` holds `c`, or the
/// length of `s` if there is none.
pub open spec fn first_at(s: Seq<char>, c: char, from: int) -> int
    decreases s.len() - from,
{
    if from < 0 || from >= s.len() {
        s.len() as int
    } else if s[from] == c {
        from
    } else {
        first_at(s, c, from + 1)
    }
}

/// `first_at` lies between `from` and the end, nothing before it is `c`,
/// and where it lies inside `s` it points at `c`.
pub proof fn lemma_first_at(s: Seq<char>, c: char, from: int)
    requires
        0 <= from <= s.len(),
    ensures
        from <= first_at(s, c, from) <= s.len(),
        forall|j: int| from <= j < first_at(s, c, from) ==> s[j] != c,
        first_at(s, c, from) < s.len() ==> s[first_at(s, c, from)] == c,
    decreases s.len() - from,
{
    if from < s.len() && s[from] != c {
        lemma_first_at(s, c, from + 1);
    }
}

/// A position with the properties of `first_at` is `first_at`.
pub proof fn lemma_first_at_is(s: Seq<char>, c: char, from: int, at: int)
    requires
        0 <= from <= at <= s.len(),
        forall|j: int| from <= j < at ==> s[j] != c,
        at < s.len() ==> s[at] == c,
    ensures
        first_at(s, c, from) == at,
    decreases at - from,
{
    if from < at {
        lemma_first_at_is(s, c, from + 1, at);
    }
}

/// Finds `c` in `s`, starting at `from`.
pub fn find_from(s: &str, c: char, from: usize) -> (at: usize)
    requires
        from <= s@.len(),
    ensures
        at == first_at(s@, c, from as int),
{
    let n: usize = s.unicode_len();
    let mut i: usize = 0;
    for ch in it: s.chars()
        invariant
            i == it.index(),
            it.seq() == s@,
            s@.len() == n,
            from <= n,
            forall|j: int| from <= j < i ==> s@[j] != c,
    {
        if i >= from && ch == c {
            proof {
                lemma_first_at_is(s@, c, from as int, i as int);
            }
            return i;
        }
        i = i + 1;
    }
    proof {
        lemma_first_at_is(s@, c, from as int, n as int);
    }
    n
}

/// Whether `c` is one of the ten decimal digits.
pub open spec fn is_digit(c: char) -> bool {
    '0' <= c <= '9'
}

/// The number that the digit `c` stands for.
pub open spec fn digit_value(c: char) -> nat {
    (c as int - '0' as int) as nat
}

/// The number that a run of decimal digits stands for.
pub open spec fn decimal_value(s: Seq<char>) -> nat
    decreases s.len(),
{
    if s.len() == 0 {
        0
    } else {
        decimal_value(s.drop_last()) * 10 + digit_value(s.last())
    }
}

/// `s` without one leading plus sign, if it starts with one.
pub open spec fn unsigned_digits(s: Seq<char>) -> Seq<char> {
    if s.len() > 0 && s[0] == '+' {
        s.drop_first()
    } else {
        s
    }
}

/// Whether `s` writes an unsigned number: at least one decimal digit and
/// nothing else, but for a plus sign that may stand in front.
pub open spec fn is_unsigned(s: Seq<char>) -> bool {
    let d = unsigned_digits(s);
    d.len() > 0 && forall|i: int| 0 <= i < d.len() ==> is_digit(#[trigger] d[i])
}

/// The number that `s` writes, where `is_unsigned(s)`.
pub open spec fn unsigned_value(s: Seq<char>) -> nat {
    decimal_value(unsigned_digits(s))
}

/// Reads an unsigned number that is at most `limit`.
///
/// `None` says that `s` writes no unsigned number, or one above `limit`.
pub fn parse_at_most(s: &str, limit: u32) -> (r: Option<u32>)
    requires
        limit <= 100_000_000,
    ensures
        r.is_some() == (is_unsigned(s@) && unsigned_value(s@) <= limit),
        r matches Some(v) ==> v == unsigned_value(s@),
{
    let n: usize = s.unicode_len();
    let ghost digits = unsigned_digits(s@);
    let ghost skip: int = s@.len() - digits.len();
    let mut acc: u32 = 0;
    let mut seen: usize = 0;
    let mut i: usize = 0;
    for ch in it: s.chars()
        invariant
            i == it.index(),
            it.seq() == s@,
            s@.len() == n,
            limit <= 100_000_000,
            digits == unsigned_digits(s@),
            skip == s@.len() - digits.len(),
            0 <= skip <= 1,
            i <= skip ==> seen == 0,
            i >= skip ==> seen == i - skip,
            forall|j: int| 0 <= j < seen ==> is_digit(#[trigger] digits[j]),
            acc <= limit + 1,
            acc <= limit ==> acc == decimal_value(digits.subrange(0, seen as int)),
            acc == limit + 1 ==> decimal_value(digits.subrange(0, seen as int)) > limit,
    {
        if i == 0 && ch == '+' {
            assert(skip == 1);
        } else {
            assert(skip == 0 || i >= 1);
            assert(digits[seen as int] == ch);
            if !('0' <= ch && ch <= '9') {
                return None;
            }
            let d: u32 = ch as u32 - '0' as u32;
            proof {
                let before = digits.subrange(0, seen as int);
                let after = digits.subrange(0, seen as int + 1);
                assert(after.drop_last() =~= before);
                assert(after.last() == ch);
                assert(decimal_value(after) == decimal_value(before) * 10 + d);
            }
            if acc <= limit {
                let next: u32 = acc * 10 + d;
                if next > limit {
                    acc = limit + 1;
                } else {
                    acc = next;
                }
            }
            seen = seen + 1;
        }
        i = i + 1;
    }
    proof {
        assert(digits.subrange(0, seen as int) =~= digits);
    }
    if seen == 0 || acc > limit {
        None
    } else {
        Some(acc)
    }
}

/// The character that writes the digit `d`.
pub open spec fn digit_char(d: nat) -> char {
    (d + '0' as nat) as char
}

/// `n` written in decimal, without leading zeros.
pub open spec fn decimal_text(n: nat) -> Seq<char>
    decreases n,
{
    if n < 10 {
        seq![digit_char(n)]
    } else {
        decimal_text(n / 10).push(digit_char(n % 10))
    }
}

/// The one-character text of a single digit.
fn digit_text(d: u8) -> (r: &'static str)
    requires
        d < 10,
    ensures
        r@ == seq![digit_char(d as nat)],
{
    proof {
        reveal_strlit("0");
        reveal_strlit("1");
        reveal_strlit("2");
        reveal_strlit("3");
        reveal_strlit("4");
        reveal_strlit("5");
        reveal_strlit("6");
        reveal_strlit("7");
        reveal_strlit("8");
        reveal_strlit("9");
    }
    let r = match d {
        0 => "0",
        1 => "1",
        2 => "2",
        3 => "3",
        4 => "4",
        5 => "5",
        6 => "6",
        7 => "7",
        8 => "8",
        _ => "9",
    };
    assert(r@ =~= seq![digit_char(d as nat)]);
    r
}

/// Writes a byte in decimal.
pub fn octet_text(n: u8) -> (r: String)
    ensures
        r@ == decimal_text(n as nat),
{
    let mut r = String::new();
    if n >= 100 {
        r.append(digit_text(n / 100));
    }
    if n >= 10 {
        r.append(digit_text((n / 10) % 10));
    }
    r.append(digit_text(n % 10));
    proof {
        reveal_with_fuel(decimal_text, 3);
        assert(r@ =~= decimal_text(n as nat));
    }
    r
}

} // verus!
