//! Lower-case hexadecimal rendering of 64-bit numbers, without leading zeros.

use vstd::prelude::*;
use crate::text::push_char;

verus! {

/// The lower-case hexadecimal digit for a value below 16.
pub open spec fn hex_digit(d: nat) -> char {
    if d < 10 {
        (48 + d) as char
    } else {
        (87 + d) as char
    }
}

/// The lower-case hexadecimal numeral of `n`, most significant digit first,
/// with no leading zeros ("0" for zero).
pub open spec fn hex_numeral(n: nat) -> Seq<char>
    decreases n,
{
    if n < 16 {
        seq![hex_digit(n)]
    } else {
        hex_numeral(n / 16).push(hex_digit(n % 16))
    }
}

fn digit_char(d: u64) -> (c: char)
    requires
        d < 16,
    ensures
        c == hex_digit(d as nat),
{
    if d < 10 {
        ((48 + d) as u8) as char
    } else {
        ((87 + d) as u8) as char
    }
}

fn push_hex(s: &mut String, n: u64)
    ensures
        final(s)@ == old(s)@ + hex_numeral(n as nat),
    decreases n,
{
    if n >= 16 {
        push_hex(s, n / 16);
    }
    let c = digit_char(n % 16);
    push_char(s, c);
    assert(s@ =~= old(s)@ + hex_numeral(n as nat));
}

/// Renders `n` the way `format!("{:x}", n)` does.
pub fn to_hex_lower(n: u64) -> (r: String)
    ensures
        r@ == hex_numeral(n as nat),
{
    let mut s = String::new();
    push_hex(&mut s, n);
    assert(s@ =~= hex_numeral(n as nat));
    s
}

/// The value of a hexadecimal digit character (0 for any other character).
pub open spec fn hex_digit_value(c: char) -> nat {
    if '0' <= c <= '9' {
        (c as nat - 48) as nat
    } else if 'a' <= c <= 'f' {
        (c as nat - 87) as nat
    } else {
        0
    }
}

/// The number that a sequence of hexadecimal digits denotes.
pub open spec fn hex_value(s: Seq<char>) -> nat
    decreases s.len(),
{
    if s.len() == 0 {
        0
    } else {
        hex_value(s.drop_last()) * 16 + hex_digit_value(s.last())
    }
}

/// A lower-case hexadecimal digit.
pub open spec fn is_hex_digit(c: char) -> bool {
    ('0' <= c <= '9') || ('a' <= c <= 'f')
}

/// Reading the numeral back gives the number.
pub proof fn hex_numeral_value(n: nat)
    ensures
        hex_value(hex_numeral(n)) == n,
    decreases n,
{
    hex_digit_roundtrip(n % 16);
    if n >= 16 {
        hex_numeral_value(n / 16);
        assert(hex_numeral(n).drop_last() =~= hex_numeral(n / 16));
        assert(hex_numeral(n).last() == hex_digit(n % 16));
        assert(n == (n / 16) * 16 + n % 16) by (nonlinear_arith);
        assert(hex_value(hex_numeral(n)) == hex_value(hex_numeral(n / 16)) * 16 + hex_digit_value(
            hex_digit(n % 16),
        ));
    } else {
        assert(hex_numeral(n).drop_last() =~= Seq::<char>::empty());
        assert(hex_value(Seq::<char>::empty()) == 0);
        assert(hex_value(hex_numeral(n)) == 0 * 16 + hex_digit_value(hex_digit(n)));
    }
}

proof fn hex_digit_roundtrip(d: nat)
    requires
        d < 16,
    ensures
        hex_digit_value(hex_digit(d)) == d,
        is_hex_digit(hex_digit(d)),
{
    if d < 10 {
        assert(((48 + d) as char) as nat == 48 + d);
    } else {
        assert(((87 + d) as char) as nat == 87 + d);
    }
}

/// Distinct numbers have distinct numerals.
pub proof fn hex_numeral_injective(a: nat, b: nat)
    requires
        hex_numeral(a) == hex_numeral(b),
    ensures
        a == b,
{
    hex_numeral_value(a);
    hex_numeral_value(b);
}

/// A numeral is made of lower-case hexadecimal digits, has no leading zero
/// unless it is "0", and has at most 16 digits for a 64-bit number.
pub proof fn hex_numeral_shape(n: nat)
    ensures
        1 <= hex_numeral(n).len(),
        forall|i: int| 0 <= i < hex_numeral(n).len() ==> is_hex_digit(#[trigger] hex_numeral(n)[i]),
        hex_numeral(n)[0] == '0' ==> n == 0,
        n < 0x1_0000_0000_0000_0000 ==> hex_numeral(n).len() <= 16,
    decreases n,
{
    hex_digit_roundtrip(n % 16);
    if n >= 16 {
        hex_numeral_shape(n / 16);
        assert(hex_numeral(n)[0] == hex_numeral(n / 16)[0]);
        if n < 0x1_0000_0000_0000_0000 {
            assert(pow16(16) == 0x1_0000_0000_0000_0000) by {
                reveal_with_fuel(pow16, 17);
            }
            hex_numeral_len_bound(n, 16);
        }
    }
}

proof fn hex_numeral_len_bound(k: nat, w: nat)
    requires
        1 <= w,
        k < pow16(w),
    ensures
        hex_numeral(k).len() <= w,
    decreases w,
{
    if k >= 16 {
        assert(w >= 2) by {
            if w == 1 {
                assert(pow16(1) == 16 * pow16(0));
            }
        }
        assert(pow16(w) == 16 * pow16((w - 1) as nat));
        assert(k / 16 < pow16((w - 1) as nat));
        hex_numeral_len_bound(k / 16, (w - 1) as nat);
    }
}

spec fn pow16(w: nat) -> nat
    decreases w,
{
    if w == 0 {
        1
    } else {
        16 * pow16((w - 1) as nat)
    }
}

} // verus!
