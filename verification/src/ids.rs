//! The canonical text of UUIDs and of signed integers.
use vstd::prelude::*;

use crate::bridge::{hex_char, hex_digit};
use crate::text::{dec, dec_vec, push_char, string_of};

verus! {

/// The low `n` hexadecimal digits of `x`, most significant first.
pub open spec fn hex_digits(x: nat, n: nat) -> Seq<char>
    decreases n,
{
    if n == 0 {
        Seq::empty()
    } else {
        hex_digits(x / 16, (n - 1) as nat).push(hex_digit((x % 16) as u8))
    }
}

/// The hyphenated lowercase text of a UUID: its 32 hexadecimal digits in
/// groups of 8, 4, 4, 4 and 12 (`Uuid::to_string`).
pub open spec fn uuid_text(x: u128) -> Seq<char> {
    let h = hex_digits(x as nat, 32);
    h.subrange(0, 8) + seq!['-'] + h.subrange(8, 12) + seq!['-'] + h.subrange(12, 16) + seq!['-']
        + h.subrange(16, 20) + seq!['-'] + h.subrange(20, 32)
}

fn hex_digits_exec(x: u128, n: usize) -> (r: Vec<char>)
    ensures
        r@ == hex_digits(x as nat, n as nat),
        r@.len() == n,
    decreases n,
{
    if n == 0 {
        Vec::new()
    } else {
        let mut v = hex_digits_exec(x / 16, n - 1);
        v.push(hex_char((x % 16) as u8));
        v
    }
}

fn push_range(out: &mut Vec<char>, h: &Vec<char>, a: usize, b: usize)
    requires
        a <= b <= h.len(),
    ensures
        final(out)@ == old(out)@ + h@.subrange(a as int, b as int),
{
    let ghost start = out@;
    let mut i: usize = a;
    while i < b
        invariant
            a <= i <= b <= h.len(),
            out@ == start + h@.subrange(a as int, i as int),
        decreases b - i,
    {
        out.push(h[i]);
        i += 1;
        assert(out@ =~= start + h@.subrange(a as int, i as int));
    }
}

/// The hyphenated lowercase text of `id`.
pub fn uuid_string(id: u128) -> (r: String)
    ensures
        r@ == uuid_text(id),
{
    let h = hex_digits_exec(id, 32);
    let mut out: Vec<char> = Vec::new();
    push_range(&mut out, &h, 0, 8);
    out.push('-');
    push_range(&mut out, &h, 8, 12);
    out.push('-');
    push_range(&mut out, &h, 12, 16);
    out.push('-');
    push_range(&mut out, &h, 16, 20);
    out.push('-');
    push_range(&mut out, &h, 20, 32);
    assert(out@ =~= uuid_text(id));
    string_of(&out)
}

/// The decimal text of an integer, with a leading `-` when negative
/// (`i64::to_string`).
pub open spec fn int_text(n: int) -> Seq<char> {
    if n < 0 {
        seq!['-'] + dec((-n) as nat)
    } else {
        dec(n as nat)
    }
}

/// The decimal text of `n`.
pub fn i64_string(n: i64) -> (r: String)
    ensures
        r@ == int_text(n as int),
{
    if n < 0 {
        let m: u64 = (0i128 - (n as i128)) as u64;
        let digits = dec_vec(m);
        let mut v: Vec<char> = Vec::new();
        v.push('-');
        let mut i: usize = 0;
        while i < digits.len()
            invariant
                i <= digits.len(),
                v@ == seq!['-'] + digits@.subrange(0, i as int),
            decreases digits.len() - i,
        {
            v.push(digits[i]);
            i += 1;
            assert(v@ =~= seq!['-'] + digits@.subrange(0, i as int));
        }
        assert(digits@.subrange(0, digits.len() as int) =~= digits@);
        string_of(&v)
    } else {
        let digits = dec_vec(n as u64);
        string_of(&digits)
    }
}

} // verus!
