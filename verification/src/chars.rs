//! Character-level building blocks: appending single characters to a
//! `String`, repeated-character runs, and the hexadecimal / decimal digit
//! sequences used for addresses and error messages.

use vstd::prelude::*;

verus! {

/// Relies on `String::push`: appends the given `char` to the end of the string.
#[verifier::external_body]
pub fn push_char(s: &mut String, c: char)
    ensures
        final(s)@ == old(s)@.push(c),
{
    s.push(c)
}

/// The character for one hexadecimal digit, lowercase or uppercase.
pub open spec fn hex_digit(d: int, uppercase: bool) -> char {
    if d < 10 {
        (48 + d) as char
    } else if uppercase {
        (55 + d) as char
    } else {
        (87 + d) as char
    }
}

/// Computes the character for one hexadecimal digit.
pub fn hex_digit_char(d: u8, uppercase: bool) -> (c: char)
    requires
        d < 16,
    ensures
        c == hex_digit(d as int, uppercase),
{
    if d < 10 {
        (48 + d) as char
    } else if uppercase {
        (55 + d) as char
    } else {
        (87 + d) as char
    }
}

/// `n` copies of the character `c` (empty when `n <= 0`).
pub open spec fn repeated(c: char, n: int) -> Seq<char> {
    if n <= 0 {
        Seq::empty()
    } else {
        Seq::new(n as nat, |i| c)
    }
}

/// Appends `n` copies of `c` to `out`.
pub fn push_repeated(out: &mut String, c: char, n: usize)
    ensures
        final(out)@ == old(out)@ + repeated(c, n as int),
{
    let mut i: usize = 0;
    while i < n
        invariant
            i <= n,
            out@ == old(out)@ + repeated(c, i as int),
        decreases n - i,
    {
        push_char(out, c);
        proof {
            assert(repeated(c, i as int).push(c) =~= repeated(c, i + 1));
            assert((old(out)@ + repeated(c, i as int)).push(c) =~= old(out)@ + repeated(
                c,
                i + 1,
            ));
        }
        i = i + 1;
    }
}

/// The shortest run of hexadecimal digits (lowercase) denoting `n`.
pub open spec fn hex_digits(n: int) -> Seq<char>
    decreases n,
{
    if n < 16 {
        seq![hex_digit(if n < 0 { 0 } else { n }, false)]
    } else {
        hex_digits(n / 16).push(hex_digit(n % 16, false))
    }
}

/// Appends the shortest lowercase hexadecimal form of `n` to `out`.
pub fn push_hex_digits(out: &mut String, n: usize)
    ensures
        final(out)@ == old(out)@ + hex_digits(n as int),
    decreases n,
{
    if n < 16 {
        push_char(out, hex_digit_char(n as u8, false));
        proof {
            assert(old(out)@.push(hex_digit(n as int, false)) =~= old(out)@ + hex_digits(
                n as int,
            ));
        }
    } else {
        push_hex_digits(out, n / 16);
        push_char(out, hex_digit_char((n % 16) as u8, false));
        proof {
            assert((old(out)@ + hex_digits(n as int / 16)).push(hex_digit(n as int % 16, false))
                =~= old(out)@ + hex_digits(n as int));
        }
    }
}

/// The number of digits in `hex_digits(n)`.
pub open spec fn hex_digits_len(n: int) -> int
    decreases n,
{
    if n < 16 {
        1
    } else {
        1 + hex_digits_len(n / 16)
    }
}

/// Computes the number of hexadecimal digits of `n`.
pub fn hex_digit_count(n: usize) -> (l: usize)
    ensures
        l == hex_digits_len(n as int),
        1 <= l <= 16,
    decreases n,
{
    proof {
        lemma_usize_fits_16_hex();
        lemma_hex_len_bound(n as int, 16);
    }
    if n < 16 {
        1
    } else {
        1 + hex_digit_count(n / 16)
    }
}

/// A value below `16^k` has at most `k` hexadecimal digits.
proof fn lemma_hex_len_bound(n: int, k: int)
    requires
        1 <= k,
        0 <= n < pow16(k),
    ensures
        hex_digits_len(n) <= k,
    decreases k,
{
    if n >= 16 {
        if k == 1 {
            assert(pow16(1) == 16 * pow16(0));
            assert(false);
        } else {
            lemma_hex_len_bound(n / 16, k - 1);
        }
    }
}

/// `16^k`, used only to bound digit counts.
pub open spec fn pow16(k: int) -> int
    decreases k,
{
    if k <= 0 {
        1
    } else {
        16 * pow16(k - 1)
    }
}

/// `usize` values fit in 16 hexadecimal digits.
proof fn lemma_usize_fits_16_hex()
    ensures
        usize::MAX < pow16(16),
{
    reveal_with_fuel(pow16, 17);
    assert(pow16(16) == 0x10000000000000000);
}

/// `n` in lowercase hexadecimal, zero-padded on the left to at least
/// `width` characters (never truncated).
pub open spec fn hex_padded(n: int, width: int) -> Seq<char> {
    repeated('0', width - hex_digits_len(n)) + hex_digits(n)
}

/// Appends `n` in lowercase hexadecimal, zero-padded to `width` characters.
pub fn push_hex_padded(out: &mut String, n: usize, width: usize)
    ensures
        final(out)@ == old(out)@ + hex_padded(n as int, width as int),
{
    let l = hex_digit_count(n);
    if width > l {
        push_repeated(out, '0', width - l);
    } else {
        proof {
            assert(repeated('0', width - hex_digits_len(n as int)) =~= Seq::<char>::empty());
        }
    }
    push_hex_digits(out, n);
    proof {
        assert(old(out)@ + repeated('0', width - hex_digits_len(n as int)) + hex_digits(n as int)
            =~= old(out)@ + hex_padded(n as int, width as int));
    }
}

/// The shortest run of decimal digits denoting `n`.
pub open spec fn dec_digits(n: int) -> Seq<char>
    decreases n,
{
    if n < 10 {
        seq![hex_digit(if n < 0 { 0 } else { n }, false)]
    } else {
        dec_digits(n / 10).push(hex_digit(n % 10, false))
    }
}

/// Appends the decimal form of `n` to `out`.
pub fn push_dec_digits(out: &mut String, n: usize)
    ensures
        final(out)@ == old(out)@ + dec_digits(n as int),
    decreases n,
{
    if n < 10 {
        push_char(out, hex_digit_char(n as u8, false));
        proof {
            assert(old(out)@.push(hex_digit(n as int, false)) =~= old(out)@ + dec_digits(
                n as int,
            ));
        }
    } else {
        push_dec_digits(out, n / 10);
        push_char(out, hex_digit_char((n % 10) as u8, false));
        proof {
            assert((old(out)@ + dec_digits(n as int / 10)).push(hex_digit(n as int % 10, false))
                =~= old(out)@ + dec_digits(n as int));
        }
    }
}

} // verus!
