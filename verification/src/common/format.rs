//! Number and padding formatting, as `format!` renders `{}`, `{:x}`,
//! `{:X}`, `{:016x}`, `{:>40}` and `{:30}`.
use vstd::prelude::*;
use crate::common::primitive::push_char;

verus! {

/// The character for digit `d` (below 16); letters are lower case unless `upper`.
pub open spec fn digit_char(d: nat, upper: bool) -> char {
    if d < 10 {
        (48 + d) as char
    } else if upper {
        (55 + d) as char
    } else {
        (87 + d) as char
    }
}

/// The digits of `v` in base `base`, most significant first, without leading
/// zeros (`0` is written as a single digit).
pub open spec fn radix_digits(v: nat, base: nat, upper: bool) -> Seq<char>
    recommends
        2 <= base <= 16,
    decreases v,
{
    if v < base || base < 2 {
        seq![digit_char(v, upper)]
    } else {
        proof {
            lemma_quotient_smaller(v, base);
        }
        radix_digits(v / base, base, upper).push(digit_char(v % base, upper))
    }
}

pub proof fn lemma_quotient_smaller(v: nat, base: nat)
    requires
        2 <= base <= v,
    ensures
        v / base < v,
{
    assert(v / base < v) by (nonlinear_arith)
        requires
            2 <= base <= v,
    ;
}

/// `n` copies of `c`.
pub open spec fn repeat_char(c: char, n: nat) -> Seq<char>
    decreases n,
{
    if n == 0 {
        Seq::empty()
    } else {
        repeat_char(c, (n - 1) as nat).push(c)
    }
}

pub proof fn lemma_repeat_char(c: char, n: nat)
    ensures
        repeat_char(c, n).len() == n,
        forall|i: int| 0 <= i < n ==> #[trigger] repeat_char(c, n)[i] == c,
    decreases n,
{
    if n > 0 {
        lemma_repeat_char(c, (n - 1) as nat);
        assert forall|i: int| 0 <= i < n implies #[trigger] repeat_char(c, n)[i] == c by {
            if i < n - 1 {
                assert(repeat_char(c, n)[i] == repeat_char(c, (n - 1) as nat)[i]);
            }
        }
    }
}

/// `s` with `c` in front up to `width` characters (right alignment).
pub open spec fn pad_front(s: Seq<char>, width: nat, c: char) -> Seq<char> {
    if s.len() < width {
        repeat_char(c, (width - s.len()) as nat) + s
    } else {
        s
    }
}

/// `s` followed by spaces up to `width` characters (left alignment).
pub open spec fn pad_back(s: Seq<char>, width: nat) -> Seq<char> {
    if s.len() < width {
        s + repeat_char(' ', (width - s.len()) as nat)
    } else {
        s
    }
}

/// `{:0width$x}` (or `X` when `upper`).
pub open spec fn spec_hex(v: nat, width: nat, upper: bool) -> Seq<char> {
    pad_front(radix_digits(v, 16, upper), width, '0')
}

/// `{}` of an unsigned integer.
pub open spec fn spec_dec(v: nat) -> Seq<char> {
    radix_digits(v, 10, false)
}

fn digit(d: u64, upper: bool) -> (c: char)
    requires
        d < 16,
    ensures
        c == digit_char(d as nat, upper),
{
    let b: u8 = if d < 10 {
        48 + d as u8
    } else if upper {
        55 + d as u8
    } else {
        87 + d as u8
    };
    b as char
}

/// Appends the digits of `v` in base `base`.
fn push_digits(s: &mut String, v: u64, base: u64, upper: bool)
    requires
        2 <= base <= 16,
    ensures
        final(s)@ == old(s)@ + radix_digits(v as nat, base as nat, upper),
    decreases v,
{
    if v >= base {
        proof {
            lemma_quotient_smaller(v as nat, base as nat);
        }
        push_digits(s, v / base, base, upper);
    }
    push_char(s, digit(v % base, upper));
    proof {
        if v < base {
            assert(v % base == v) by (nonlinear_arith)
                requires
                    v < base,
            ;
        }
        assert(s@ =~= old(s)@ + radix_digits(v as nat, base as nat, upper));
    }
}

/// Appends `n` copies of `c`.
pub fn push_repeat(s: &mut String, c: char, n: usize)
    ensures
        final(s)@ == old(s)@ + repeat_char(c, n as nat),
{
    let mut i: usize = 0;
    while i < n
        invariant
            i <= n,
            s@ == old(s)@ + repeat_char(c, i as nat),
        decreases n - i,
    {
        push_char(s, c);
        i = i + 1;
        assert(s@ =~= old(s)@ + repeat_char(c, i as nat));
    }
}

/// `v` in hexadecimal, zero-padded in front to `width` characters
/// (`format!("{:0width$x}", v)`, or `{:0width$X}` when `upper`).
pub fn format_hex(v: u64, width: usize, upper: bool) -> (res: String)
    ensures
        res@ == spec_hex(v as nat, width as nat, upper),
{
    let mut digits = String::new();
    push_digits(&mut digits, v, 16, upper);
    let len = char_count(digits.as_str());
    let mut s = String::new();
    if len < width {
        push_repeat(&mut s, '0', width - len);
    }
    s.append(digits.as_str());
    assert(s@ =~= spec_hex(v as nat, width as nat, upper));
    s
}

/// `v` in decimal (`format!("{}", v)`).
pub fn format_dec(v: u64) -> (res: String)
    ensures
        res@ == spec_dec(v as nat),
{
    let mut s = String::new();
    push_digits(&mut s, v, 10, false);
    assert(s@ =~= spec_dec(v as nat));
    s
}

/// Number of characters of a string slice.
pub fn char_count(s: &str) -> (n: usize)
    ensures
        n == s@.len(),
{
    s.unicode_len()
}

/// `s` right-aligned in `width` characters (`format!("{:>width$}", s)`).
pub fn align_right(s: &str, width: usize) -> (res: String)
    ensures
        res@ == pad_front(s@, width as nat, ' '),
{
    let mut r = String::new();
    let n = char_count(s);
    if n < width {
        push_repeat(&mut r, ' ', width - n);
    }
    r.append(s);
    assert(r@ =~= pad_front(s@, width as nat, ' '));
    r
}

/// `s` left-aligned in `width` characters (`format!("{:width$}", s)`).
pub fn align_left(s: &str, width: usize) -> (res: String)
    ensures
        res@ == pad_back(s@, width as nat),
{
    let mut r = String::new();
    r.append(s);
    let n = char_count(s);
    if n < width {
        push_repeat(&mut r, ' ', width - n);
    }
    assert(r@ =~= pad_back(s@, width as nat));
    r
}

} // verus!
