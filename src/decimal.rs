//! Decimal digits inside text: extracting them, their value, and writing
//! a number back as text.
use vstd::prelude::*;
use vstd::string::*;

verus! {

/// `c` is an ASCII decimal digit.
pub open spec fn is_digit(c: char) -> bool {
    '0' <= c && c <= '9'
}

/// Value of the ASCII digit `c`.
pub open spec fn digit_value(c: char) -> nat {
    (c as u32 - '0' as u32) as nat
}

/// The ten ASCII digits, in order of value.
pub open spec fn digit_chars() -> Seq<char> {
    seq!['0', '1', '2', '3', '4', '5', '6', '7', '8', '9']
}

/// The digits of `s`, in their order, with every other character left out.
pub open spec fn digits_of(s: Seq<char>) -> Seq<char>
    decreases s.len(),
{
    if s.len() == 0 {
        seq![]
    } else if is_digit(s.last()) {
        digits_of(s.drop_last()).push(s.last())
    } else {
        digits_of(s.drop_last())
    }
}

/// Value of the digit string `d`, read in base ten.
pub open spec fn decimal_value(d: Seq<char>) -> nat
    decreases d.len(),
{
    if d.len() == 0 {
        0
    } else {
        decimal_value(d.drop_last()) * 10 + digit_value(d.last())
    }
}

/// `n` written in base ten, without leading zeros.
pub open spec fn decimal_text(n: nat) -> Seq<char>
    decreases n,
{
    if n < 10 {
        seq![digit_chars()[n as int]]
    } else {
        decimal_text(n / 10).push(digit_chars()[(n % 10) as int])
    }
}

/// The `k`th entry of `digit_chars` is a digit of value `k`.
pub proof fn lemma_digit_char(k: int)
    requires
        0 <= k < 10,
    ensures
        is_digit(digit_chars()[k]),
        digit_value(digit_chars()[k]) == k,
{
    let d = digit_chars();
    if k == 0 {
        assert(d[0] == '0');
    } else if k == 1 {
        assert(d[1] == '1');
    } else if k == 2 {
        assert(d[2] == '2');
    } else if k == 3 {
        assert(d[3] == '3');
    } else if k == 4 {
        assert(d[4] == '4');
    } else if k == 5 {
        assert(d[5] == '5');
    } else if k == 6 {
        assert(d[6] == '6');
    } else if k == 7 {
        assert(d[7] == '7');
    } else if k == 8 {
        assert(d[8] == '8');
    } else {
        assert(d[9] == '9');
    }
}

/// Adding characters at the end never lowers the value of the digits read.
pub proof fn lemma_value_grows(s: Seq<char>, i: int, j: int)
    requires
        0 <= i <= j <= s.len(),
    ensures
        decimal_value(digits_of(s.subrange(0, i))) <= decimal_value(digits_of(s.subrange(0, j))),
    decreases j - i,
{
    if i < j {
        lemma_value_grows(s, i, j - 1);
        let t = s.subrange(0, j);
        assert(t.drop_last() =~= s.subrange(0, j - 1));
        if is_digit(t.last()) {
            assert(digits_of(t).drop_last() =~= digits_of(t.drop_last()));
        }
    }
}

/// Text made of digits alone is its own digit string, and its value is
/// what `decimal_text` wrote.
pub proof fn lemma_decimal_text(n: nat)
    ensures
        digits_of(decimal_text(n)) == decimal_text(n),
        decimal_value(decimal_text(n)) == n,
        decimal_text(n).len() > 0,
        forall|i: int| 0 <= i < decimal_text(n).len() ==> is_digit(#[trigger] decimal_text(n)[i]),
    decreases n,
{
    let t = decimal_text(n);
    lemma_digit_char((n % 10) as int);
    if n < 10 {
        let e = Seq::<char>::empty();
        assert(t.drop_last() =~= e);
        assert(digits_of(e) == e);
        assert(decimal_value(e) == 0);
        assert(t.last() == digit_chars()[n as int]);
        assert(digits_of(t) =~= t);
    } else {
        lemma_decimal_text(n / 10);
        assert(t.drop_last() =~= decimal_text(n / 10));
        assert(t.last() == digit_chars()[(n % 10) as int]);
        assert(digits_of(t) =~= t);
    }
}

/// Appends `n`, written in base ten, to `s`.
pub fn push_decimal(s: &mut String, n: usize)
    ensures
        final(s)@ == old(s)@ + decimal_text(n as nat),
    decreases n,
{
    let digits = "0123456789";
    proof {
        reveal_strlit("0123456789");
    }
    if n >= 10 {
        push_decimal(s, n / 10);
    }
    let d = n % 10;
    let one = digits.substring_char(d, d + 1);
    assert(one@ =~= seq![digit_chars()[d as int]]);
    s.append(one);
    assert(final(s)@ =~= old(s)@ + decimal_text(n as nat));
}

} // verus!
