//! Numerals and column padding: the pieces from which the textual forms of a
//! mode are put together, and the reading of a decimal numeral.

use vstd::prelude::*;
use vstd::string::*;

verus! {

/// The character for the digit `d`, upper case above nine.
pub open spec fn digit_char(d: nat) -> char {
    if d == 0 {
        '0'
    } else if d == 1 {
        '1'
    } else if d == 2 {
        '2'
    } else if d == 3 {
        '3'
    } else if d == 4 {
        '4'
    } else if d == 5 {
        '5'
    } else if d == 6 {
        '6'
    } else if d == 7 {
        '7'
    } else if d == 8 {
        '8'
    } else if d == 9 {
        '9'
    } else if d == 10 {
        'A'
    } else if d == 11 {
        'B'
    } else if d == 12 {
        'C'
    } else if d == 13 {
        'D'
    } else if d == 14 {
        'E'
    } else {
        'F'
    }
}

/// The numeral of `n` in `base`, padded with zeros on the left to at least
/// `width` digits: its last digit is `n % base`, and what stands before it is
/// the numeral of `n / base` in one column less.
pub open spec fn numeral(n: nat, base: nat, width: nat) -> Seq<char>
    recommends
        2 <= base <= 16,
    decreases n, width,
    via numeral_terminates
{
    if base < 2 {
        Seq::empty()
    } else if n < base && width <= 1 {
        seq![digit_char(n)]
    } else {
        numeral(n / base, base, if width >= 1 { (width - 1) as nat } else { 0 }).push(
            digit_char(n % base),
        )
    }
}

#[via_fn]
proof fn numeral_terminates(n: nat, base: nat, width: nat) {
    if base >= 2 && n >= base {
        lemma_quotient_smaller(n, base);
    }
}

/// Dividing a positive number by a base of at least two makes it smaller.
pub proof fn lemma_quotient_smaller(n: nat, base: nat)
    requires
        base >= 2,
        n >= 1,
    ensures
        n / base < n,
{
    assert(n / base < n) by (nonlinear_arith)
        requires
            base >= 2,
            n >= 1,
    ;
}

/// The decimal numeral of `n`, without leading zeros.
pub open spec fn decimal_text(n: nat) -> Seq<char> {
    numeral(n, 10, 1)
}

/// The upper-case hexadecimal numeral of `n`, with at least `width` digits.
pub open spec fn hex_text(n: nat, width: nat) -> Seq<char> {
    numeral(n, 16, width)
}

/// `k` spaces.
pub open spec fn spaces(k: nat) -> Seq<char> {
    Seq::new(k, |i: int| ' ')
}

/// `s` filled with spaces on the right up to `width` characters; a longer `s`
/// is left as it is.
pub open spec fn pad_right(s: Seq<char>, width: nat) -> Seq<char> {
    if s.len() >= width {
        s
    } else {
        s + spaces((width - s.len()) as nat)
    }
}

/// The one-character string of the digit `d`.
fn digit_str(d: u8) -> (s: &'static str)
    requires
        d < 16,
    ensures
        s@ == seq![digit_char(d as nat)],
{
    proof {
        reveal_strlit("0");
        reveal_strlit("1");
        reveal_strlit("2");
        reveal_strlit("3");
        reveal_strlit("4");
        reveal_strlit("5");
        reveal_strlit("6");
        reveal_strlit("7");
        reveal_strlit("8");
        reveal_strlit("9");
        reveal_strlit("A");
        reveal_strlit("B");
        reveal_strlit("C");
        reveal_strlit("D");
        reveal_strlit("E");
        reveal_strlit("F");
    }
    let s = match d {
        0 => "0",
        1 => "1",
        2 => "2",
        3 => "3",
        4 => "4",
        5 => "5",
        6 => "6",
        7 => "7",
        8 => "8",
        9 => "9",
        10 => "A",
        11 => "B",
        12 => "C",
        13 => "D",
        14 => "E",
        _ => "F",
    };
    assert(s@ =~= seq![digit_char(d as nat)]);
    s
}

/// Appends to `out` the numeral of `n` in `base` with at least `width` digits.
pub fn append_numeral(out: &mut String, n: u64, base: u64, width: usize)
    requires
        2 <= base <= 16,
    ensures
        final(out)@ == old(out)@ + numeral(n as nat, base as nat, width as nat),
    decreases n, width,
{
    if n < base && width <= 1 {
        out.append(digit_str(n as u8));
        assert(final(out)@ =~= old(out)@ + numeral(n as nat, base as nat, width as nat));
    } else {
        let rest: usize = if width >= 1 { width - 1 } else { 0 };
        proof {
            if n >= 1 {
                lemma_quotient_smaller(n as nat, base as nat);
            }
        }
        append_numeral(out, n / base, base, rest);
        out.append(digit_str((n % base) as u8));
        assert(final(out)@ =~= old(out)@ + numeral(n as nat, base as nat, width as nat));
    }
}

/// The decimal numeral of `n`.
pub fn decimal_string(n: u64) -> (s: String)
    ensures
        s@ == decimal_text(n as nat),
{
    let mut s = String::new();
    append_numeral(&mut s, n, 10, 1);
    assert(s@ =~= decimal_text(n as nat));
    s
}

/// Appends `s` to `out`, filled with spaces on the right up to `width`
/// characters.
pub fn append_padded(out: &mut String, s: &str, width: usize)
    ensures
        final(out)@ == old(out)@ + pad_right(s@, width as nat),
{
    out.append(s);
    let len = s.unicode_len();
    let mut k: usize = len;
    assert(out@ =~= old(out)@ + s@ + spaces(0));
    while k < width
        invariant
            len == s@.len(),
            len <= k,
            k <= width || k == len,
            out@ == old(out)@ + s@ + spaces((k - len) as nat),
        decreases width - k,
    {
        proof {
            reveal_strlit(" ");
        }
        out.append(" ");
        k = k + 1;
        assert(out@ =~= old(out)@ + s@ + spaces((k - len) as nat));
    }
    assert(out@ =~= old(out)@ + pad_right(s@, width as nat));
}

/// Whether `c` is one of the ten decimal digits.
pub open spec fn is_digit(c: char) -> bool {
    c == '0' || c == '1' || c == '2' || c == '3' || c == '4' || c == '5' || c == '6' || c == '7'
        || c == '8' || c == '9'
}

/// The number that the decimal digit `c` stands for.
pub open spec fn digit_value(c: char) -> nat {
    if c == '1' {
        1
    } else if c == '2' {
        2
    } else if c == '3' {
        3
    } else if c == '4' {
        4
    } else if c == '5' {
        5
    } else if c == '6' {
        6
    } else if c == '7' {
        7
    } else if c == '8' {
        8
    } else if c == '9' {
        9
    } else {
        0
    }
}

/// Whether `s` is a decimal numeral: one digit or more, and nothing else.
pub open spec fn is_decimal(s: Seq<char>) -> bool {
    s.len() > 0 && forall|i: int| 0 <= i < s.len() ==> is_digit(#[trigger] s[i])
}

/// The number that the digits of `s` denote, the first digit weighing most.
pub open spec fn decimal_value(s: Seq<char>) -> nat
    decreases s.len(),
{
    if s.len() == 0 {
        0
    } else {
        decimal_value(s.drop_last()) * 10 + digit_value(s.last())
    }
}

/// What reading `s` as a decimal numeral gives: its value where `s` is a
/// numeral and the value fits in 64 bits, nothing otherwise.
pub open spec fn parsed_decimal(s: Seq<char>) -> Option<u64> {
    if is_decimal(s) && decimal_value(s) <= u64::MAX {
        Some(decimal_value(s) as u64)
    } else {
        None
    }
}

/// The value of a prefix never exceeds the value of the whole.
pub proof fn lemma_decimal_value_prefix(s: Seq<char>, k: int)
    requires
        0 <= k <= s.len(),
    ensures
        decimal_value(s.take(k)) <= decimal_value(s),
    decreases s.len() - k,
{
    if k == s.len() {
        assert(s.take(k) =~= s);
    } else {
        lemma_decimal_value_prefix(s.drop_last(), k);
        assert(s.drop_last().take(k) =~= s.take(k));
    }
}

/// A decimal numeral read back gives the number it was written for.
pub proof fn lemma_decimal_text_value(n: nat)
    ensures
        is_decimal(decimal_text(n)),
        decimal_value(decimal_text(n)) == n,
{
    lemma_numeral_value(n, 1);
}

proof fn lemma_numeral_value(n: nat, width: nat)
    requires
        width <= 1,
    ensures
        is_decimal(numeral(n, 10, width)),
        decimal_value(numeral(n, 10, width)) == n,
    decreases n,
{
    let t = numeral(n, 10, width);
    if n < 10 {
        assert(t =~= seq![digit_char(n)]);
        assert(t.drop_last() =~= Seq::<char>::empty());
        assert(decimal_value(t.drop_last()) == 0);
    } else {
        let head = numeral(n / 10, 10, 0);
        lemma_numeral_value(n / 10, 0);
        assert(t == head.push(digit_char(n % 10)));
        assert(t.drop_last() =~= head);
        assert(t.last() == digit_char(n % 10));
        assert forall|i: int| 0 <= i < t.len() implies is_digit(#[trigger] t[i]) by {
            if i < head.len() {
                assert(t[i] == head[i]);
            }
        }
    }
}

/// The digit that `c` stands for, if it is one.
fn digit_of(c: char) -> (r: Option<u8>)
    ensures
        r.is_some() == is_digit(c),
        r matches Some(d) ==> d as nat == digit_value(c) && d < 10,
{
    match c {
        '0' => Some(0),
        '1' => Some(1),
        '2' => Some(2),
        '3' => Some(3),
        '4' => Some(4),
        '5' => Some(5),
        '6' => Some(6),
        '7' => Some(7),
        '8' => Some(8),
        '9' => Some(9),
        _ => None,
    }
}

/// Reads `s` as a decimal numeral.
pub fn parse_decimal(s: &str) -> (r: Option<u64>)
    ensures
        r == parsed_decimal(s@),
{
    let n = s.unicode_len();
    if n == 0 {
        return None;
    }
    let mut value: u64 = 0;
    let mut i: usize = 0;
    assert(s@.take(0) =~= Seq::<char>::empty());
    while i < n
        invariant
            n == s@.len(),
            i <= n,
            forall|j: int| 0 <= j < i ==> is_digit(#[trigger] s@[j]),
            value as nat == decimal_value(s@.take(i as int)),
        decreases n - i,
    {
        let c = s.get_char(i);
        proof {
            assert(s@.take(i + 1).drop_last() =~= s@.take(i as int));
            assert(s@.take(i + 1).last() == s@[i as int]);
            lemma_decimal_value_prefix(s@, i + 1);
        }
        match digit_of(c) {
            None => {
                return None;
            },
            Some(d) => {
                if value > (u64::MAX - d as u64) / 10 {
                    return None;
                }
                value = value * 10 + d as u64;
            },
        }
        i = i + 1;
    }
    assert(s@.take(n as int) =~= s@);
    Some(value)
}

} // verus!
