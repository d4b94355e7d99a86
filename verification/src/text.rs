//! Decimal rendering of counts for display text.
use vstd::prelude::*;

verus! {

/// The character of a decimal digit `d` (0..=9).
pub open spec fn digit_char(d: nat) -> char {
    if d == 0 {
        '0'
    } else if d == 1 {
        '1'
    } else if d == 2 {
        '2'
    } else if d == 3 {
        '3'
    } else if d == 4 {
        '4'
    } else if d == 5 {
        '5'
    } else if d == 6 {
        '6'
    } else if d == 7 {
        '7'
    } else if d == 8 {
        '8'
    } else {
        '9'
    }
}

/// The decimal digits of `n`, most significant first, with no leading zeros (`0` is
/// written as a single `0`).
pub open spec fn decimal(n: nat) -> Seq<char>
    decreases n,
{
    if n < 10 {
        seq![digit_char(n)]
    } else {
        decimal(n / 10).push(digit_char(n % 10))
    }
}

/// The one-character text of digit `d`.
fn digit_str(d: u32) -> (r: &'static str)
    requires
        d < 10,
    ensures
        r@ == seq![digit_char(d as nat)],
{
    proof {
        reveal_strlit("0");
        reveal_strlit("1");
        reveal_strlit("2");
        reveal_strlit("3");
        reveal_strlit("4");
        reveal_strlit("5");
        reveal_strlit("6");
        reveal_strlit("7");
        reveal_strlit("8");
        reveal_strlit("9");
    }
    match d {
        0 => "0",
        1 => "1",
        2 => "2",
        3 => "3",
        4 => "4",
        5 => "5",
        6 => "6",
        7 => "7",
        8 => "8",
        _ => "9",
    }
}

/// Append the decimal digits of `n` to `out`.
fn push_decimal(out: &mut String, n: u32)
    ensures
        final(out)@ == old(out)@ + decimal(n as nat),
    decreases n,
{
    if n >= 10 {
        push_decimal(out, n / 10);
    }
    out.append(digit_str(n % 10));
    assert(final(out)@ == old(out)@ + decimal(n as nat)) by {
        if n >= 10 {
            assert(decimal(n as nat) == decimal((n / 10) as nat).push(digit_char((n % 10) as nat)));
        }
    }
}

/// `n` written in decimal, as `u32::to_string` writes it.
pub fn decimal_string(n: u32) -> (s: String)
    ensures
        s@ == decimal(n as nat),
        denoted(s@) == n,
        forall|i: int| 0 <= i < s@.len() ==> '0' <= #[trigger] s@[i] <= '9',
{
    proof {
        law_decimal_denotes(n as nat);
    }
    let mut s = String::new();
    push_decimal(&mut s, n);
    assert(s@ =~= decimal(n as nat));
    s
}

/// The number a string of decimal digits denotes, reading it in base ten (most
/// significant digit first; each character counts as its distance from `'0'`).
pub open spec fn denoted(s: Seq<char>) -> int
    decreases s.len(),
{
    if s.len() == 0 {
        0
    } else {
        10 * denoted(s.drop_last()) + (s.last() as int - '0' as int)
    }
}

/// The decimal text of `n` denotes `n`: every character is one of `'0'..='9'`, reading
/// the digits back in base ten gives `n`, and only `0` itself starts with `'0'`.
pub proof fn law_decimal_denotes(n: nat)
    ensures
        forall|i: int| 0 <= i < decimal(n).len() ==> '0' <= #[trigger] decimal(n)[i] <= '9',
        denoted(decimal(n)) == n,
        decimal(n).len() >= 1,
        n > 0 ==> decimal(n)[0] != '0',
    decreases n,
{
    if n >= 10 {
        law_decimal_denotes(n / 10);
        let s = decimal(n);
        let pre = decimal(n / 10);
        assert(s == pre.push(digit_char(n % 10)));
        assert(s.drop_last() == pre);
        assert(digit_char(n % 10) as int - '0' as int == n % 10);
        assert forall|i: int| 0 <= i < s.len() implies '0' <= #[trigger] s[i] <= '9' by {
            if i < pre.len() {
                assert(s[i] == pre[i]);
            }
        }
        assert(s[0] == pre[0]);
        assert(s.last() == digit_char(n % 10));
        assert(denoted(s) == 10 * denoted(pre) + (n % 10));
        assert(n == 10 * (n / 10) + n % 10);
    } else {
        assert(digit_char(n) as int - '0' as int == n);
        let s = decimal(n);
        assert(s.drop_last().len() == 0);
        assert(denoted(s.drop_last()) == 0);
        assert(s.last() == digit_char(n));
        assert(denoted(s) == 10 * denoted(s.drop_last()) + (s.last() as int - '0' as int));
    }
}

} // verus!
