use vstd::prelude::*;

verus! {

/// The character of a decimal digit.
pub open spec fn digit_char(d: nat) -> char {
    (d + 48) as char
}

/// The decimal numeral of `n`, most significant digit first, without
/// leading zeros ("0" for zero).
pub open spec fn decimal(n: nat) -> Seq<char>
    decreases n,
{
    if n < 10 {
        seq![digit_char(n)]
    } else {
        decimal(n / 10).push(digit_char(n % 10))
    }
}

/// The numeral of `n` padded with leading zeros to at least `width`
/// characters, as `format!("{:0width$}", n)` writes it.
pub open spec fn zero_padded(n: nat, width: nat) -> Seq<char> {
    let pad: nat = if decimal(n).len() < width {
        (width - decimal(n).len()) as nat
    } else {
        0
    };
    Seq::new(pad, |i: int| '0') + decimal(n)
}

fn push_digit(out: &mut Vec<char>, d: u32)
    requires
        d < 10,
    ensures
        final(out)@ == old(out)@.push(digit_char(d as nat)),
{
    let c = ((d as u8) + 48u8) as char;
    assert(c == digit_char(d as nat));
    out.push(c);
}

/// Appends the decimal numeral of `n`.
fn push_decimal(out: &mut Vec<char>, n: u32)
    ensures
        final(out)@ == old(out)@ + decimal(n as nat),
    decreases n,
{
    if n >= 10 {
        push_decimal(out, n / 10);
    }
    push_digit(out, n % 10);
    proof {
        if n >= 10 {
            assert(old(out)@ + decimal(n as nat) =~= (old(out)@ + decimal((n / 10) as nat)).push(
                digit_char((n % 10) as nat),
            ));
        } else {
            assert(old(out)@ + decimal(n as nat) =~= old(out)@.push(digit_char((n % 10) as nat)));
        }
    }
}

/// Appends the numeral of `n` padded with zeros to at least `width` digits.
fn push_zero_padded(out: &mut Vec<char>, n: u32, width: usize)
    ensures
        final(out)@ == old(out)@ + zero_padded(n as nat, width as nat),
{
    let mut digits: Vec<char> = Vec::new();
    push_decimal(&mut digits, n);
    assert(digits@ =~= decimal(n as nat));
    let mut k: usize = digits.len();
    while k < width
        invariant
            digits@ == decimal(n as nat),
            digits.len() <= k,
            k <= width || k == digits.len(),
            out@ == old(out)@ + Seq::new((k - digits.len()) as nat, |i: int| '0'),
        decreases width - k,
    {
        out.push('0');
        proof {
            assert(out@ =~= old(out)@ + Seq::new((k + 1 - digits.len()) as nat, |i: int| '0'));
        }
        k = k + 1;
    }
    let ghost pad = out@;
    let mut j: usize = 0;
    while j < digits.len()
        invariant
            j <= digits.len(),
            out@ == pad + digits@.subrange(0, j as int),
        decreases digits.len() - j,
    {
        out.push(digits[j]);
        proof {
            assert(out@ =~= pad + digits@.subrange(0, j + 1));
        }
        j = j + 1;
    }
    proof {
        assert(digits@.subrange(0, digits.len() as int) =~= digits@);
        assert(out@ =~= old(out)@ + zero_padded(n as nat, width as nat));
    }
}

/// The score readout of the heads-up display: `SCORE  ` and the score in six
/// digits.
pub fn score_label(score: u32) -> (label: Vec<char>)
    ensures
        label@ == seq!['S', 'C', 'O', 'R', 'E', ' ', ' '] + zero_padded(score as nat, 6),
{
    let mut label = vec!['S', 'C', 'O', 'R', 'E', ' ', ' '];
    push_zero_padded(&mut label, score, 6);
    label
}

/// The high-score readout: `HIGH  ` and the high score in six digits.
pub fn high_score_label(high_score: u32) -> (label: Vec<char>)
    ensures
        label@ == seq!['H', 'I', 'G', 'H', ' ', ' '] + zero_padded(high_score as nat, 6),
{
    let mut label = vec!['H', 'I', 'G', 'H', ' ', ' '];
    push_zero_padded(&mut label, high_score, 6);
    label
}

/// The wave readout: `WAVE  ` and the wave number.
pub fn wave_label(wave: u32) -> (label: Vec<char>)
    ensures
        label@ == seq!['W', 'A', 'V', 'E', ' ', ' '] + decimal(wave as nat),
{
    let mut label = vec!['W', 'A', 'V', 'E', ' ', ' '];
    push_decimal(&mut label, wave);
    label
}

/// The game-over readout: `FINAL SCORE  ` and the score in six digits.
pub fn final_score_label(score: u32) -> (label: Vec<char>)
    ensures
        label@ == seq!['F', 'I', 'N', 'A', 'L', ' ', 'S', 'C', 'O', 'R', 'E', ' ', ' ']
            + zero_padded(score as nat, 6),
{
    let mut label = vec!['F', 'I', 'N', 'A', 'L', ' ', 'S', 'C', 'O', 'R', 'E', ' ', ' '];
    push_zero_padded(&mut label, score, 6);
    label
}

/// The number a string of decimal digits denotes, read left to right.
pub open spec fn numeral_value(s: Seq<char>) -> int
    decreases s.len(),
{
    if s.len() == 0 {
        0
    } else {
        numeral_value(s.drop_last()) * 10 + (s.last() as int - 48)
    }
}

/// All characters are decimal digits.
pub open spec fn all_digits(s: Seq<char>) -> bool {
    forall|i: int| 0 <= i < s.len() ==> 48 <= #[trigger] (s[i] as int) <= 57
}

/// The numeral of `n` consists of decimal digits, denotes `n`, and has no
/// leading zero unless it is the single digit of zero.
pub proof fn lemma_decimal_denotes(n: nat)
    ensures
        all_digits(decimal(n)),
        numeral_value(decimal(n)) == n,
        decimal(n).len() >= 1,
        n > 0 ==> decimal(n)[0] != '0',
        n == 0 ==> decimal(n) == seq!['0'],
    decreases n,
{
    if n >= 10 {
        lemma_decimal_denotes(n / 10);
        let d = decimal(n / 10);
        assert(decimal(n).drop_last() =~= d);
        assert(decimal(n)[0] == d[0]);
        assert(digit_char(n % 10) as int == n % 10 + 48);
        assert(decimal(n).last() == digit_char(n % 10));
        assert(numeral_value(decimal(n)) == numeral_value(d) * 10 + (n % 10));
        assert((n / 10) * 10 + n % 10 == n);
    } else {
        assert(digit_char(n) as int == n + 48);
        assert(decimal(n).drop_last() =~= Seq::<char>::empty());
        assert(numeral_value(decimal(n)) == numeral_value(Seq::<char>::empty()) * 10 + (n as int));
    }
}

proof fn lemma_zeros_value(k: nat)
    ensures
        numeral_value(Seq::new(k, |i: int| '0')) == 0,
    decreases k,
{
    if k > 0 {
        assert(Seq::new(k, |i: int| '0').drop_last() =~= Seq::new((k - 1) as nat, |i: int| '0'));
        lemma_zeros_value((k - 1) as nat);
    }
}

proof fn lemma_leading_zeros_value(k: nat, s: Seq<char>)
    ensures
        numeral_value(Seq::new(k, |i: int| '0') + s) == numeral_value(s),
    decreases s.len(),
{
    let z = Seq::new(k, |i: int| '0');
    if s.len() == 0 {
        assert(z + s =~= z);
        lemma_zeros_value(k);
    } else {
        assert((z + s).drop_last() =~= z + s.drop_last());
        lemma_leading_zeros_value(k, s.drop_last());
    }
}

/// The zero-padded numeral of `n` is never shorter than the width: it is as
/// long as the larger of `width` and the numeral of `n`; it consists of
/// decimal digits, denotes `n`, ends with the numeral of `n`, and everything
/// before that is `0`. So a score readout always shows at least six digits.
pub proof fn lemma_zero_padded_width(n: nat, width: nat)
    ensures
        zero_padded(n, width).len() == if decimal(n).len() < width {
            width
        } else {
            decimal(n).len()
        },
        zero_padded(n, width).len() >= width,
        all_digits(zero_padded(n, width)),
        numeral_value(zero_padded(n, width)) == n,
        zero_padded(n, width).subrange(
            zero_padded(n, width).len() - decimal(n).len(),
            zero_padded(n, width).len() as int,
        ) == decimal(n),
        forall|i: int|
            0 <= i < zero_padded(n, width).len() - decimal(n).len() ==> #[trigger] zero_padded(
                n,
                width,
            )[i] == '0',
{
    lemma_decimal_denotes(n);
    let z = zero_padded(n, width);
    let pad: nat = if decimal(n).len() < width {
        (width - decimal(n).len()) as nat
    } else {
        0
    };
    lemma_leading_zeros_value(pad, decimal(n));
    assert(z.subrange(z.len() - decimal(n).len(), z.len() as int) =~= decimal(n));
    assert forall|i: int| 0 <= i < z.len() implies 48 <= #[trigger] (z[i] as int) <= 57 by {
        if i >= pad {
            assert(z[i] == decimal(n)[i - pad]);
        }
    }
}

} // verus!
