//! Numbers in decimal.

use vstd::prelude::*;
use vstd::string::*;

verus! {

/// The character of the decimal digit `d`.
pub open spec fn digit_char(d: int) -> char {
    ('0' as int + d) as char
}

/// `n` in decimal, without leading zeros.
pub open spec fn digits(n: nat) -> Seq<char>
    decreases n,
{
    if n < 10 {
        seq![digit_char(n as int)]
    } else {
        digits(n / 10).push(digit_char(n as int % 10))
    }
}

/// `n` in decimal, with leading zeros up to `width` characters.
pub open spec fn padded_digits(n: nat, width: nat) -> Seq<char> {
    if digits(n).len() < width {
        Seq::new((width - digits(n).len()) as nat, |i: int| '0') + digits(n)
    } else {
        digits(n)
    }
}

/// One decimal digit as text.
fn digit(d: u64) -> (r: &'static str)
    requires
        d < 10,
    ensures
        r@ == seq![digit_char(d as int)],
{
    proof {
        reveal_strlit("0");
        reveal_strlit("1");
        reveal_strlit("2");
        reveal_strlit("3");
        reveal_strlit("4");
        reveal_strlit("5");
        reveal_strlit("6");
        reveal_strlit("7");
        reveal_strlit("8");
        reveal_strlit("9");
    }
    match d {
        0 => "0",
        1 => "1",
        2 => "2",
        3 => "3",
        4 => "4",
        5 => "5",
        6 => "6",
        7 => "7",
        8 => "8",
        _ => "9",
    }
}

/// `n` in decimal.
pub fn decimal(n: u64) -> (r: String)
    ensures
        r@ == digits(n as nat),
    decreases n,
{
    if n < 10 {
        digit(n).to_owned()
    } else {
        let mut r: String = decimal(n / 10);
        r.append(digit(n % 10));
        r
    }
}

/// `n` in decimal, filled with leading zeros to at least `width` characters.
pub fn padded(n: u64, width: usize) -> (r: String)
    ensures
        r@ == padded_digits(n as nat, width as nat),
{
    let text: String = decimal(n);
    let size: usize = text.as_str().unicode_len();
    let mut r: String = String::new();
    let mut have: usize = size;
    while have < width
        invariant
            size <= have,
            have <= width || have == size,
            r@ == Seq::new((have - size) as nat, |i: int| '0'),
        decreases width - have,
    {
        proof {
            reveal_strlit("0");
        }
        r.append("0");
        have += 1;
    }
    r.append(text.as_str());
    r
}

/// A number below a hundred fills two characters.
pub proof fn lemma_two_digits(n: nat)
    requires
        n < 100,
    ensures
        padded_digits(n, 2) == seq![digit_char(n as int / 10), digit_char(n as int % 10)],
{
    reveal_with_fuel(digits, 3);
    assert(padded_digits(n, 2) =~= seq![digit_char(n as int / 10), digit_char(n as int % 10)]);
}

/// A number below ten thousand fills four characters.
pub proof fn lemma_four_digits(n: nat)
    requires
        n < 10000,
    ensures
        padded_digits(n, 4) == seq![
            digit_char(n as int / 1000),
            digit_char(n as int / 100 % 10),
            digit_char(n as int / 10 % 10),
            digit_char(n as int % 10),
        ],
{
    reveal_with_fuel(digits, 5);
    assert(padded_digits(n, 4) =~= seq![
        digit_char(n as int / 1000),
        digit_char(n as int / 100 % 10),
        digit_char(n as int / 10 % 10),
        digit_char(n as int % 10),
    ]);
}

/// A number in decimal is made of digits.
pub(crate) proof fn lemma_digits(n: nat)
    ensures
        digits(n).len() > 0,
        forall|i: int| 0 <= i < digits(n).len() ==> '0' <= #[trigger] digits(n)[i] <= '9',
    decreases n,
{
    if n >= 10 {
        lemma_digits(n / 10);
    }
}

/// The digits of a number tell the number.
pub(crate) proof fn lemma_digits_tell(a: nat, b: nat)
    requires
        digits(a) == digits(b),
    ensures
        a == b,
    decreases a,
{
    let x = digits(a);
    let y = digits(b);
    if a >= 10 {
        lemma_digits(a / 10);
    }
    if b >= 10 {
        lemma_digits(b / 10);
    }
    assert(x.last() == digit_char(a as int % 10));
    assert(y.last() == digit_char(b as int % 10));
    if a >= 10 && b >= 10 {
        assert(x.drop_last() =~= digits(a / 10));
        assert(y.drop_last() =~= digits(b / 10));
        lemma_digits_tell(a / 10, b / 10);
    }
}

/// A number at the end of a text is told from what stands before it, if that does
/// not end in a digit.
pub(crate) proof fn lemma_last_number_tells(before: Seq<char>, a: nat, other: Seq<char>, b: nat)
    requires
        before.len() > 0,
        other.len() > 0,
        !('0' <= before.last() <= '9'),
        !('0' <= other.last() <= '9'),
        before + digits(a) == other + digits(b),
    ensures
        before == other,
        a == b,
{
    let text = before + digits(a);
    lemma_digits(a);
    lemma_digits(b);
    assert(text.len() == before.len() + digits(a).len());
    assert((other + digits(b)).len() == other.len() + digits(b).len());
    assert(before.len() == other.len()) by {
        if before.len() < other.len() {
            let i = other.len() - 1;
            assert(text[i] == other.last());
            assert(text[i] == digits(a)[i - before.len()]);
        } else if other.len() < before.len() {
            let i = before.len() - 1;
            assert((other + digits(b))[i] == before.last());
            assert((other + digits(b))[i] == digits(b)[i - other.len()]);
        }
    }
    let n = before.len() as int;
    assert(before =~= text.take(n));
    assert(other =~= text.take(n));
    assert(digits(a) =~= text.skip(n));
    assert(digits(b) =~= text.skip(n));
    lemma_digits_tell(a, b);
}

/// The number that a text of decimal digits stands for.
pub open spec fn decimal_value(s: Seq<char>) -> int
    decreases s.len(),
{
    if s.len() == 0 {
        0
    } else {
        10 * decimal_value(s.drop_last()) + (s.last() as int - '0' as int)
    }
}

/// The text is the number in decimal, filled with leading zeros to this width.
pub open spec fn is_numeral(s: Seq<char>, n: int, width: int) -> bool {
    &&& s.len() > 0
    &&& s.len() >= width
    &&& forall|i: int| 0 <= i < s.len() ==> '0' <= #[trigger] s[i] <= '9'
    &&& decimal_value(s) == n
    &&& s.len() > width && s.len() > 1 ==> s[0] != '0'
}

/// A number in decimal stands for that number, and has no leading zero.
pub proof fn law_decimal_reads_back(n: nat)
    ensures
        is_numeral(digits(n), n as int, 0),
        n > 0 ==> digits(n)[0] != '0',
    decreases n,
{
    let s = digits(n);
    lemma_digits(n);
    if n >= 10 {
        law_decimal_reads_back(n / 10);
        assert(s.drop_last() =~= digits(n / 10));
        assert(s[0] == digits(n / 10)[0]);
    } else {
        assert(s.drop_last() =~= Seq::<char>::empty());
        assert(decimal_value(s.drop_last()) == 0);
    }
}

/// Leading zeros do not change what number a text stands for.
proof fn lemma_leading_zeros(zeros: Seq<char>, s: Seq<char>)
    requires
        forall|i: int| 0 <= i < zeros.len() ==> zeros[i] == '0',
    ensures
        decimal_value(zeros + s) == decimal_value(s),
    decreases zeros.len() + s.len(),
{
    let text = zeros + s;
    if s.len() > 0 {
        lemma_leading_zeros(zeros, s.drop_last());
        assert(text.drop_last() =~= zeros + s.drop_last());
    } else if zeros.len() > 0 {
        lemma_leading_zeros(zeros.drop_last(), s);
        assert(text.drop_last() =~= zeros.drop_last() + s);
    }
}

/// A number in decimal stands for that number, however wide it is made, and has
/// just as many leading zeros as the width asks for.
pub proof fn law_padded_decimal_reads_back(n: nat, width: nat)
    ensures
        is_numeral(padded_digits(n, width), n as int, width as int),
{
    law_decimal_reads_back(n);
    if digits(n).len() < width {
        let zeros = Seq::new((width - digits(n).len()) as nat, |i: int| '0');
        lemma_leading_zeros(zeros, digits(n));
    }
}

} // verus!
