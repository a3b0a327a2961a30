use vstd::prelude::*;

verus! {

/// The glyph for one decimal digit value.
pub open spec fn dec_digit_char(d: nat) -> char {
    if d == 0 {
        '0'
    } else if d == 1 {
        '1'
    } else if d == 2 {
        '2'
    } else if d == 3 {
        '3'
    } else if d == 4 {
        '4'
    } else if d == 5 {
        '5'
    } else if d == 6 {
        '6'
    } else if d == 7 {
        '7'
    } else if d == 8 {
        '8'
    } else {
        '9'
    }
}

/// The glyph for one hexadecimal digit value, lowercase.
pub open spec fn hex_digit_char(d: nat) -> char {
    if d < 10 {
        dec_digit_char(d)
    } else if d == 10 {
        'a'
    } else if d == 11 {
        'b'
    } else if d == 12 {
        'c'
    } else if d == 13 {
        'd'
    } else if d == 14 {
        'e'
    } else {
        'f'
    }
}

pub open spec fn is_dec_digit(c: char) -> bool {
    c == '0' || c == '1' || c == '2' || c == '3' || c == '4' || c == '5' || c == '6' || c == '7'
        || c == '8' || c == '9'
}

pub open spec fn is_hex_digit(c: char) -> bool {
    is_dec_digit(c) || c == 'a' || c == 'b' || c == 'c' || c == 'd' || c == 'e' || c == 'f'
}

/// The decimal numeral of `n`: most significant digit first, no leading
/// zeros, and `seq!['0']` for zero itself.
pub open spec fn dec_rep(n: nat) -> Seq<char>
    decreases n,
{
    if n < 10 {
        seq![dec_digit_char(n)]
    } else {
        dec_rep(n / 10).push(dec_digit_char(n % 10))
    }
}

/// Nibble `i` of `h`, counting the most significant nibble as 0.
pub open spec fn nibble(h: u64, i: int) -> nat {
    ((h >> (((15 - i) * 4) as u64)) & 0xf) as nat
}

/// The fixed-width hexadecimal numeral of `h`: exactly 16 lowercase
/// digits, most significant first, padded with leading zeros.
pub open spec fn hex_rep(h: u64) -> Seq<char> {
    Seq::new(16, |i: int| hex_digit_char(nibble(h, i)))
}

/// Every character of a decimal numeral is a decimal digit.
pub proof fn lemma_dec_rep_digits(n: nat)
    ensures
        dec_rep(n).len() >= 1,
        forall|i: int| 0 <= i < dec_rep(n).len() ==> is_dec_digit(#[trigger] dec_rep(n)[i]),
    decreases n,
{
    if n >= 10 {
        lemma_dec_rep_digits(n / 10);
    }
}

/// Every character of the fixed-width hexadecimal numeral is a
/// lowercase hexadecimal digit.
pub proof fn lemma_hex_rep_digits(h: u64)
    ensures
        hex_rep(h).len() == 16,
        forall|i: int| 0 <= i < 16 ==> is_hex_digit(#[trigger] hex_rep(h)[i]),
{
    assert forall|i: int| 0 <= i < 16 implies is_hex_digit(#[trigger] hex_rep(h)[i]) by {
        let sh = ((15 - i) * 4) as u64;
        assert((h >> sh) & 0xf < 16) by (bit_vector);
    }
}

/// Relies on `String::push` from std: appends exactly the one character
/// to the end of the string.
#[verifier::external_body]
pub(crate) fn push_char(s: &mut String, c: char)
    ensures
        final(s)@ == old(s)@.push(c),
{
    s.push(c);
}

fn dec_digit(d: u64) -> (c: char)
    requires
        d < 10,
    ensures
        c == dec_digit_char(d as nat),
{
    if d == 0 {
        '0'
    } else if d == 1 {
        '1'
    } else if d == 2 {
        '2'
    } else if d == 3 {
        '3'
    } else if d == 4 {
        '4'
    } else if d == 5 {
        '5'
    } else if d == 6 {
        '6'
    } else if d == 7 {
        '7'
    } else if d == 8 {
        '8'
    } else {
        '9'
    }
}

fn hex_digit(d: u64) -> (c: char)
    requires
        d < 16,
    ensures
        c == hex_digit_char(d as nat),
{
    if d < 10 {
        dec_digit(d)
    } else if d == 10 {
        'a'
    } else if d == 11 {
        'b'
    } else if d == 12 {
        'c'
    } else if d == 13 {
        'd'
    } else if d == 14 {
        'e'
    } else {
        'f'
    }
}

fn dec_digits_into(s: &mut String, n: u64)
    ensures
        final(s)@ == old(s)@ + dec_rep(n as nat),
    decreases n,
{
    if n < 10 {
        push_char(s, dec_digit(n));
        assert(s@ =~= old(s)@ + dec_rep(n as nat));
    } else {
        dec_digits_into(s, n / 10);
        push_char(s, dec_digit(n % 10));
        assert(s@ =~= old(s)@ + dec_rep(n as nat));
    }
}

/// The decimal numeral of `n` as a string.
pub fn u64_to_decimal(n: u64) -> (r: String)
    ensures
        r@ == dec_rep(n as nat),
{
    let mut r = String::new();
    dec_digits_into(&mut r, n);
    proof {
        assert(r@ =~= dec_rep(n as nat));
    }
    r
}

/// The 16-digit lowercase hexadecimal numeral of `h` as a string.
pub fn u64_to_hex16(h: u64) -> (r: String)
    ensures
        r@ == hex_rep(h),
{
    let mut r = String::new();
    let mut i: usize = 0;
    while i < 16
        invariant
            0 <= i <= 16,
            r@ =~= hex_rep(h).take(i as int),
        decreases 16 - i,
    {
        let sh: u64 = (15 - i as u64) * 4;
        let nib: u64 = (h >> sh) & 0xf;
        assert((h >> sh) & 0xf < 16) by (bit_vector);
        assert(nib as nat == nibble(h, i as int));
        push_char(&mut r, hex_digit(nib));
        i += 1;
    }
    proof {
        assert(r@ =~= hex_rep(h));
    }
    r
}

} // verus!
