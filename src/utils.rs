//! Decimal and human-readable rendering of sizes.
use vstd::prelude::*;
use crate::strings::push_char;

verus! {

pub const KILOBYTE: u64 = 1024;
pub const MEGABYTE: u64 = 1024 * 1024;
pub const GIGABYTE: u64 = 1024 * 1024 * 1024;

pub open spec fn digit_char(d: nat) -> char {
    if d == 0 {
        '0'
    } else if d == 1 {
        '1'
    } else if d == 2 {
        '2'
    } else if d == 3 {
        '3'
    } else if d == 4 {
        '4'
    } else if d == 5 {
        '5'
    } else if d == 6 {
        '6'
    } else if d == 7 {
        '7'
    } else if d == 8 {
        '8'
    } else {
        '9'
    }
}

/// The decimal digits of `n`, most significant first.
pub open spec fn decimal(n: nat) -> Seq<char>
    decreases n,
{
    if n < 10 {
        seq![digit_char(n)]
    } else {
        decimal(n / 10).push(digit_char(n % 10))
    }
}

/// The decimal text of a signed number.
pub open spec fn signed_decimal(n: int) -> Seq<char> {
    if n < 0 {
        seq!['-'] + decimal((-n) as nat)
    } else {
        decimal(n as nat)
    }
}

fn digit(d: u64) -> (c: char)
    requires
        d < 10,
    ensures
        c == digit_char(d as nat),
{
    if d == 0 {
        '0'
    } else if d == 1 {
        '1'
    } else if d == 2 {
        '2'
    } else if d == 3 {
        '3'
    } else if d == 4 {
        '4'
    } else if d == 5 {
        '5'
    } else if d == 6 {
        '6'
    } else if d == 7 {
        '7'
    } else if d == 8 {
        '8'
    } else {
        '9'
    }
}

/// Appends the decimal digits of `n`.
pub fn push_decimal(s: &mut String, n: u64)
    ensures
        final(s)@ == old(s)@ + decimal(n as nat),
    decreases n,
{
    if n < 10 {
        push_char(s, digit(n));
        assert(old(s)@.push(digit_char(n as nat)) =~= old(s)@ + decimal(n as nat));
    } else {
        push_decimal(s, n / 10);
        push_char(s, digit(n % 10));
        assert(old(s)@ + decimal(n as nat / 10) + seq![digit_char(n as nat % 10)] =~= old(s)@ + decimal(n as nat));
    }
}

/// Appends the decimal text of a signed number.
pub fn push_signed_decimal(s: &mut String, n: i64)
    ensures
        final(s)@ == old(s)@ + signed_decimal(n as int),
{
    if n < 0 {
        push_char(s, '-');
        let m: u64 = if n == i64::MIN {
            0x8000_0000_0000_0000
        } else {
            (-n) as u64
        };
        push_decimal(s, m);
        assert(old(s)@.push('-') + decimal(m as nat) =~= old(s)@ + signed_decimal(n as int));
    } else {
        push_decimal(s, n as u64);
    }
}

/// Appends `n` copies of `c`.
pub fn push_repeated(s: &mut String, c: char, n: usize)
    ensures
        final(s)@ == old(s)@ + Seq::new(n as nat, |i: int| c),
{
    let mut i: usize = 0;
    while i < n
        invariant
            i <= n,
            s@ == old(s)@ + Seq::new(i as nat, |j: int| c),
        decreases n - i,
    {
        push_char(s, c);
        i = i + 1;
        assert(s@ =~= old(s)@ + Seq::new(i as nat, |j: int| c));
    }
}

/// `a / d` rounded to the nearest integer, ties to the even one.
pub open spec fn rounded_div(a: nat, d: nat) -> nat
    recommends
        d > 0,
{
    let q = a / d;
    let r = a % d;
    if 2 * r > d || (2 * r == d && q % 2 == 1) {
        q + 1
    } else {
        q
    }
}

/// The unit that a size is shown in, and its number of bytes.
pub open spec fn size_unit(len: nat) -> (Seq<char>, nat) {
    if len > GIGABYTE {
        ("GiB"@, GIGABYTE as nat)
    } else if len > MEGABYTE {
        ("MiB"@, MEGABYTE as nat)
    } else if len > KILOBYTE {
        ("KiB"@, KILOBYTE as nat)
    } else {
        ("bytes"@, 1)
    }
}

/// Two decimal digits of a number below 100.
pub open spec fn two_digits(n: nat) -> Seq<char> {
    seq![digit_char(n / 10), digit_char(n % 10)]
}

/// A size in the largest unit it exceeds, with two decimals rounded half to even.
pub open spec fn pretty_size(len: nat) -> Seq<char> {
    let (unit, scale) = size_unit(len);
    let h = rounded_div(len * 100, scale);
    decimal(h / 100) + seq!['.'] + two_digits(h % 100) + unit
}

proof fn lemma_scaled_division(len: nat, scale: nat, whole: nat, part: nat, frac: nat)
    requires
        scale > 0,
        whole == len / scale,
        part == len % scale,
        frac == part * 100,
    ensures
        (len * 100) / scale == whole * 100 + frac / scale,
        (len * 100) % scale == frac % scale,
{
    assert(len == whole * scale + part) by (nonlinear_arith)
        requires
            whole == len / scale,
            part == len % scale,
            scale > 0,
    ;
    assert(len * 100 == (whole * 100) * scale + frac) by (nonlinear_arith)
        requires
            len == whole * scale + part,
            frac == part * 100,
    ;
    assert((len * 100) / scale == whole * 100 + frac / scale && (len * 100) % scale == frac
        % scale) by (nonlinear_arith)
        requires
            len * 100 == (whole * 100) * scale + frac,
            scale > 0,
            frac >= 0,
    ;
}

/// `len` in hundredths of `scale`, rounded half to even.
fn hundredths(len: u64, scale: u64) -> (h: u64)
    requires
        scale == 1 || scale == KILOBYTE || scale == MEGABYTE || scale == GIGABYTE,
        scale == 1 ==> len <= KILOBYTE,
    ensures
        h as nat == rounded_div(len as nat * 100, scale as nat),
{
    let whole = len / scale;
    let part = len % scale;
    assert(part < scale);
    let frac = part * 100;
    assert(whole <= len);
    assert(whole * 100 <= 1844674407370955200) by (nonlinear_arith)
        requires
            whole == len / scale,
            scale == 1 ==> len <= KILOBYTE,
            scale >= 1024 || scale == 1,
            len <= u64::MAX,
    ;
    let q = whole * 100 + frac / scale;
    let rem = frac % scale;
    proof {
        lemma_scaled_division(len as nat, scale as nat, whole as nat, part as nat, frac as nat);
    }
    if 2 * rem > scale || (2 * rem == scale && q % 2 == 1) {
        q + 1
    } else {
        q
    }
}

pub fn pretty_bytes_size(len: u64) -> (r: String)
    ensures
        r@ == pretty_size(len as nat),
{
    let (unit, scale): (&str, u64) = if len > GIGABYTE {
        ("GiB", GIGABYTE)
    } else if len > MEGABYTE {
        ("MiB", MEGABYTE)
    } else if len > KILOBYTE {
        ("KiB", KILOBYTE)
    } else {
        ("bytes", 1)
    };
    let h = hundredths(len, scale);
    let mut s = String::new();
    push_decimal(&mut s, h / 100);
    push_char(&mut s, '.');
    push_char(&mut s, digit((h % 100) / 10));
    push_char(&mut s, digit(h % 10));
    s.append(unit);
    proof {
        reveal_strlit("GiB");
        reveal_strlit("MiB");
        reveal_strlit("KiB");
        reveal_strlit("bytes");
        assert((h % 100) % 10 == h % 10);
        assert(s@ =~= pretty_size(len as nat));
    }
    s
}

} // verus!
