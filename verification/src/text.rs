//! Small string helpers shared by the assembler, the disassembler and
//! the debugger.

use vstd::prelude::*;
use vstd::string::*;

verus! {

/// Compare two string slices, character by character
pub(crate) fn str_eq(a: &str, b: &str) -> (r: bool)
    ensures
        r == (a@ == b@),
{
    a.to_owned() == b.to_owned()
}

/// Append a character to a string.
///
/// Trusted: calls `String::push`, which std documents as appending
/// the given `char` to the end of the string.
#[verifier::external_body]
pub(crate) fn string_push(s: &mut String, c: char)
    ensures
        final(s)@ == old(s)@.push(c),
{
    s.push(c)
}

/// Lower case hexadecimal digit for `n` (`n < 16`)
pub open spec fn hex_digit(n: u32) -> char {
    if n < 10 {
        (('0' as u32) + n) as char
    } else {
        (('a' as u32) + n - 10) as char
    }
}

/// The `ndigits` low hexadecimal digits of `v`, most significant
/// first
pub open spec fn hex_digits(v: u32, ndigits: nat) -> Seq<char>
    decreases ndigits,
{
    if ndigits == 0 {
        seq![]
    } else {
        hex_digits(v >> 4u32, (ndigits - 1) as nat).push(hex_digit(v & 0xf))
    }
}

/// Lower case hexadecimal digit for `n`
pub fn hex_char(n: u32) -> (c: char)
    requires
        n < 16,
    ensures
        c == hex_digit(n),
{
    let digits = ['0', '1', '2', '3', '4', '5', '6', '7', '8', '9', 'a', 'b', 'c', 'd', 'e', 'f'];
    let c = digits[n as usize];
    proof {
        if n == 0 { assert(c == '0'); } else if n == 1 { assert(c == '1'); }
        else if n == 2 { assert(c == '2'); } else if n == 3 { assert(c == '3'); }
        else if n == 4 { assert(c == '4'); } else if n == 5 { assert(c == '5'); }
        else if n == 6 { assert(c == '6'); } else if n == 7 { assert(c == '7'); }
        else if n == 8 { assert(c == '8'); } else if n == 9 { assert(c == '9'); }
        else if n == 10 { assert(c == 'a'); } else if n == 11 { assert(c == 'b'); }
        else if n == 12 { assert(c == 'c'); } else if n == 13 { assert(c == 'd'); }
        else if n == 14 { assert(c == 'e'); } else { assert(c == 'f'); }
    }
    c
}

/// Append the `ndigits` low hexadecimal digits of `v` to `s`, most
/// significant first
pub fn push_hex(s: &mut String, v: u32, ndigits: u32)
    requires
        ndigits <= 8,
    ensures
        final(s)@ == old(s)@ + hex_digits(v, ndigits as nat),
    decreases ndigits,
{
    if ndigits > 0 {
        push_hex(s, v >> 4, ndigits - 1);
        assert(v & 0xf < 16) by (bit_vector);
        string_push(s, hex_char(v & 0xf));
    }
}

/// Decimal digits of `n`, most significant first
pub open spec fn dec_digits(n: nat) -> Seq<char>
    decreases n,
{
    if n < 10 {
        seq![hex_digit(n as u32)]
    } else {
        dec_digits(n / 10) + seq![hex_digit((n % 10) as u32)]
    }
}

/// Decimal representation of a signed value
pub open spec fn dec_signed(v: int) -> Seq<char> {
    if v < 0 {
        seq!['-'] + dec_digits((-v) as nat)
    } else {
        dec_digits(v as nat)
    }
}

/// Hexadecimal digits of `n` without leading zeros, most significant
/// first
pub open spec fn hex_min(n: nat) -> Seq<char>
    decreases n,
{
    if n < 16 {
        seq![hex_digit(n as u32)]
    } else {
        hex_min(n / 16) + seq![hex_digit((n % 16) as u32)]
    }
}

/// Append the decimal representation of `v` to `s`
pub fn push_dec(s: &mut String, v: u32)
    ensures
        final(s)@ == old(s)@ + dec_digits(v as nat),
    decreases v,
{
    if v >= 10 {
        push_dec(s, v / 10);
    }
    string_push(s, hex_char(v % 10));
    proof {
        if v >= 10 {
            assert(final(s)@ =~= old(s)@ + dec_digits(v as nat));
        }
    }
}

/// Append the decimal representation of the signed value `v` to `s`
pub fn push_dec_signed(s: &mut String, v: i32)
    ensures
        final(s)@ == old(s)@ + dec_signed(v as int),
{
    if v < 0 {
        string_push(s, '-');
        let m = (0 - (v as i64)) as u32;
        push_dec(s, m);
        assert(final(s)@ =~= old(s)@ + dec_signed(v as int));
    } else {
        push_dec(s, v as u32);
    }
}

/// Append the hexadecimal representation of `v` (no leading zeros)
/// to `s`
pub fn push_hex_min(s: &mut String, v: u32)
    ensures
        final(s)@ == old(s)@ + hex_min(v as nat),
    decreases v,
{
    if v >= 16 {
        push_hex_min(s, v / 16);
    }
    string_push(s, hex_char(v % 16));
    proof {
        if v >= 16 {
            assert(final(s)@ =~= old(s)@ + hex_min(v as nat));
        }
    }
}

/// Append the string slice `t` to `s`
pub fn push_str(s: &mut String, t: &str)
    ensures
        final(s)@ == old(s)@ + t@,
{
    let n = t.unicode_len();
    let mut i: usize = 0;
    while i < n
        invariant
            n == t@.len(),
            i <= n,
            s@ == old(s)@ + t@.subrange(0, i as int),
        decreases n - i,
    {
        string_push(s, t.get_char(i));
        i += 1;
        assert(s@ =~= old(s)@ + t@.subrange(0, i as int));
    }
    assert(t@.subrange(0, n as int) =~= t@);
}

} // verus!
