//! Decimal text of integers: plain, zero-padded to a width, and signed.
use vstd::prelude::*;

verus! {

/// The character of a decimal digit.
pub open spec fn digit_char(d: nat) -> char {
    if d == 0 {
        '0'
    } else if d == 1 {
        '1'
    } else if d == 2 {
        '2'
    } else if d == 3 {
        '3'
    } else if d == 4 {
        '4'
    } else if d == 5 {
        '5'
    } else if d == 6 {
        '6'
    } else if d == 7 {
        '7'
    } else if d == 8 {
        '8'
    } else {
        '9'
    }
}

/// The decimal digits of `n`, most significant first, without leading zeros.
pub open spec fn nat_text(n: nat) -> Seq<char>
    decreases n,
{
    if n < 10 {
        seq![digit_char(n)]
    } else {
        nat_text(n / 10).push(digit_char(n % 10))
    }
}

/// `n` in decimal, left-padded with zeros to at least `width` characters.
pub open spec fn padded_text(n: nat, width: nat) -> Seq<char> {
    let t = nat_text(n);
    if t.len() < width {
        Seq::new((width - t.len()) as nat, |_i: int| '0') + t
    } else {
        t
    }
}

/// `i` in decimal with zero padding to `width` characters, a minus sign
/// counting toward the width and standing before the zeros.
pub open spec fn int_padded_text(i: int, width: nat) -> Seq<char> {
    if i < 0 {
        seq!['-'] + padded_text((-i) as nat, if width > 0 { (width - 1) as nat } else { 0 })
    } else {
        padded_text(i as nat, width)
    }
}

fn digit_str(d: u8) -> (r: &'static str)
    requires
        d < 10,
    ensures
        r@ == seq![digit_char(d as nat)],
{
    proof {
        reveal_strlit("0");
        reveal_strlit("1");
        reveal_strlit("2");
        reveal_strlit("3");
        reveal_strlit("4");
        reveal_strlit("5");
        reveal_strlit("6");
        reveal_strlit("7");
        reveal_strlit("8");
        reveal_strlit("9");
    }
    match d {
        0 => "0",
        1 => "1",
        2 => "2",
        3 => "3",
        4 => "4",
        5 => "5",
        6 => "6",
        7 => "7",
        8 => "8",
        _ => "9",
    }
}

/// Appends the decimal digits of `n`.
pub fn push_nat_text(s: &mut String, n: u128)
    ensures
        final(s)@ == old(s)@ + nat_text(n as nat),
    decreases n,
{
    if n >= 10 {
        push_nat_text(s, n / 10);
    }
    s.append(digit_str((n % 10) as u8));
    proof {
        if n >= 10 {
            assert(nat_text(n as nat) == nat_text((n / 10) as nat).push(digit_char((n % 10) as nat)));
        }
    }
    assert(final(s)@ =~= old(s)@ + nat_text(n as nat));
}

fn digit_count(n: u128) -> (r: usize)
    ensures
        r as nat == nat_text(n as nat).len(),
    decreases n,
{
    if n < 10 {
        1
    } else {
        let k = digit_count(n / 10);
        proof {
            lemma_u128_text_len((n / 10) as nat);
        }
        k + 1
    }
}

/// Ten to the power `k`.
spec fn pow10(k: nat) -> nat
    decreases k,
{
    if k == 0 {
        1
    } else {
        10 * pow10((k - 1) as nat)
    }
}

proof fn lemma_text_len_bound(n: nat, k: nat)
    requires
        k >= 1,
        n < pow10(k),
    ensures
        nat_text(n).len() <= k,
    decreases k,
{
    if n >= 10 {
        assert(k >= 2) by {
            if k == 1 {
                assert(pow10(1) == 10 * pow10(0));
            }
        }
        let p = pow10((k - 1) as nat);
        assert(n / 10 < p) by (nonlinear_arith)
            requires
                n < 10 * p,
        ;
        lemma_text_len_bound(n / 10, (k - 1) as nat);
    }
}

proof fn lemma_u128_text_len(n: nat)
    requires
        n <= u128::MAX,
    ensures
        nat_text(n).len() <= 39,
{
    reveal_with_fuel(pow10, 40);
    assert(pow10(39) == 1000000000000000000000000000000000000000nat);
    lemma_text_len_bound(n, 39);
}

/// Appends `n` in decimal, zero-padded to `width` characters.
pub fn push_padded_text(s: &mut String, n: u128, width: usize)
    ensures
        final(s)@ == old(s)@ + padded_text(n as nat, width as nat),
{
    let count = digit_count(n);
    let ghost start = s@;
    let mut k: usize = count;
    while k < width
        invariant
            count <= k <= width || (k == count && count >= width),
            count as nat == nat_text(n as nat).len(),
            s@ == start + Seq::new((k - count) as nat, |_i: int| '0'),
        decreases width - k,
    {
        proof {
            reveal_strlit("0");
        }
        s.append("0");
        k = k + 1;
        assert(s@ =~= start + Seq::new((k - count) as nat, |_i: int| '0'));
    }
    let ghost zeros = s@;
    push_nat_text(s, n);
    proof {
        if count < width {
            assert(k == width);
        } else {
            assert(zeros =~= start);
        }
    }
    assert(s@ =~= start + padded_text(n as nat, width as nat));
}

/// The absolute value of `i`, which always fits a `u128`.
pub fn magnitude(i: i128) -> (r: u128)
    ensures
        r as int == if i < 0 { -i } else { i as int },
{
    if i >= 0 {
        i as u128
    } else if i == i128::MIN {
        (i128::MAX as u128) + 1
    } else {
        (-i) as u128
    }
}

/// Appends `i` in decimal, zero-padded to `width` characters after any sign.
pub fn push_int_padded_text(s: &mut String, i: i128, width: usize)
    ensures
        final(s)@ == old(s)@ + int_padded_text(i as int, width as nat),
{
    let ghost start = s@;
    if i < 0 {
        proof {
            reveal_strlit("-");
        }
        s.append("-");
        let w: usize = if width > 0 { width - 1 } else { 0 };
        push_padded_text(s, magnitude(i), w);
        assert(s@ =~= start + int_padded_text(i as int, width as nat));
    } else {
        push_padded_text(s, i as u128, width);
    }
}

} // verus!
