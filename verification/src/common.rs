//! Parsing of numbers, the register, stack and code views of the context,
//! labels and the arguments of the commands.
pub mod disasm;
pub mod format;
pub mod primitive;

use vstd::prelude::*;
use crate::common::primitive::str_chars;
use crate::colors::{a, spec_a, Palette};
use crate::common::format::{format_hex, align_left, pad_back};
use crate::telescope::{AddressInfo, spec_telescope_line, telescope_line};
use crate::common::format::{digit_char, radix_digits, repeat_char, spec_hex, pad_front, lemma_quotient_smaller, lemma_repeat_char};

verus! {

/// Why a string is not a hexadecimal number; the same three cases that
/// `usize::from_str_radix` reports for radix 16.
#[derive(Debug, Clone, Copy, PartialEq, Eq, Structural)]
pub enum HexError {
    /// Nothing is left once the `0x` prefixes are removed.
    Empty,
    /// A character that is not a hexadecimal digit (a lone `+` included).
    InvalidDigit,
    /// The number does not fit in a `usize`.
    PosOverflow,
}

pub open spec fn is_hex_digit(c: char) -> bool {
    ('0' <= c && c <= '9') || ('a' <= c && c <= 'f') || ('A' <= c && c <= 'F')
}

pub open spec fn hex_digit_value(c: char) -> nat {
    if '0' <= c && c <= '9' {
        (c as nat - '0' as nat) as nat
    } else if 'a' <= c && c <= 'f' {
        (c as nat - 'a' as nat + 10) as nat
    } else {
        (c as nat - 'A' as nat + 10) as nat
    }
}

pub open spec fn all_hex(s: Seq<char>) -> bool {
    forall|i: int| 0 <= i < s.len() ==> is_hex_digit(#[trigger] s[i])
}

/// The number that a run of hexadecimal digits denotes, most significant first.
pub open spec fn hex_value(s: Seq<char>) -> nat
    decreases s.len(),
{
    if s.len() == 0 {
        0
    } else {
        hex_value(s.drop_last()) * 16 + hex_digit_value(s.last())
    }
}

/// `s` with every leading `"0x"` removed (`str::trim_start_matches("0x")`).
pub open spec fn strip_hex_prefixes(s: Seq<char>) -> Seq<char>
    decreases s.len(),
{
    if s.len() >= 2 && s[0] == '0' && s[1] == 'x' {
        strip_hex_prefixes(s.subrange(2, s.len() as int))
    } else {
        s
    }
}

/// `k` is the length of the longest prefix of `d` made of hexadecimal digits.
pub open spec fn is_hex_run(d: Seq<char>, k: nat) -> bool {
    &&& k <= d.len()
    &&& all_hex(d.take(k as int))
    &&& (k == d.len() || !is_hex_digit(d[k as int]))
}

pub open spec fn hex_run(d: Seq<char>) -> nat {
    choose|k: nat| is_hex_run(d, k)
}

/// The digits that follow an optional `+`.
pub open spec fn unsigned_digits(t: Seq<char>) -> Seq<char> {
    if t.len() > 0 && t[0] == '+' {
        t.drop_first()
    } else {
        t
    }
}

/// What `from_hex` gives for `s`: the prefixes `0x` are removed, an optional
/// `+` is allowed, and the digits are scanned from the left; the first digit
/// that is not hexadecimal, or that makes the value exceed `usize::MAX`, stops
/// the scan with the corresponding error.
pub open spec fn spec_from_hex(s: Seq<char>) -> Result<usize, HexError> {
    let t = strip_hex_prefixes(s);
    let d = unsigned_digits(t);
    if t.len() == 0 {
        Err(HexError::Empty)
    } else if d.len() == 0 {
        Err(HexError::InvalidDigit)
    } else if hex_value(d.take(hex_run(d) as int)) > usize::MAX {
        Err(HexError::PosOverflow)
    } else if hex_run(d) < d.len() {
        Err(HexError::InvalidDigit)
    } else {
        Ok(hex_value(d) as usize)
    }
}

proof fn lemma_hex_run_unique(d: Seq<char>, k1: nat, k2: nat)
    requires
        is_hex_run(d, k1),
        is_hex_run(d, k2),
    ensures
        k1 == k2,
{
    if k1 < k2 {
        assert(d.take(k2 as int)[k1 as int] == d[k1 as int]);
    } else if k2 < k1 {
        assert(d.take(k1 as int)[k2 as int] == d[k2 as int]);
    }
}

proof fn lemma_hex_run_is(d: Seq<char>, k: nat)
    requires
        is_hex_run(d, k),
    ensures
        hex_run(d) == k,
{
    lemma_hex_run_unique(d, hex_run(d), k);
}

/// Appending digits never makes the value smaller.
proof fn lemma_hex_value_monotone(d: Seq<char>, i: nat, j: nat)
    requires
        i <= j <= d.len(),
    ensures
        hex_value(d.take(i as int)) <= hex_value(d.take(j as int)),
    decreases j - i,
{
    if i < j {
        lemma_hex_value_monotone(d, i, (j - 1) as nat);
        assert(d.take(j as int).drop_last() =~= d.take(j - 1));
    }
}

proof fn lemma_strip_prefixes_step(s: Seq<char>)
    requires
        s.len() >= 2,
        s[0] == '0',
        s[1] == 'x',
    ensures
        strip_hex_prefixes(s) == strip_hex_prefixes(s.subrange(2, s.len() as int)),
{
}

/// Parses a hexadecimal number, skipping any number of leading `0x`.
pub fn from_hex(s: &str) -> (res: Result<usize, HexError>)
    ensures
        res == spec_from_hex(s@),
{
    let chars = str_chars(s);
    let n = chars.len();
    // skip the "0x" prefixes
    let mut start: usize = 0;
    assert(chars@.subrange(0, n as int) =~= chars@);
    while n - start >= 2 && chars[start] == '0' && chars[start + 1] == 'x'
        invariant
            start <= n,
            n == chars@.len(),
            strip_hex_prefixes(chars@.subrange(start as int, n as int)) == strip_hex_prefixes(s@),
            chars@ == s@,
        decreases n - start,
    {
        proof {
            let rest = chars@.subrange(start as int, n as int);
            lemma_strip_prefixes_step(rest);
            assert(rest.subrange(2, rest.len() as int) =~= chars@.subrange(start + 2, n as int));
        }
        start = start + 2;
    }
    let ghost t = chars@.subrange(start as int, n as int);
    assert(strip_hex_prefixes(t) == t);
    if start == n {
        return Err(HexError::Empty);
    }
    if chars[start] == '+' {
        start = start + 1;
        if start == n {
            return Err(HexError::InvalidDigit);
        }
    }
    let ghost d = chars@.subrange(start as int, n as int);
    assert(d =~= unsigned_digits(t));
    let mut acc: usize = 0;
    let mut i: usize = start;
    while i < n
        invariant
            start <= i <= n,
            n == chars@.len(),
            d == chars@.subrange(start as int, n as int),
            d == unsigned_digits(strip_hex_prefixes(s@)),
            strip_hex_prefixes(s@).len() > 0,
            d.len() > 0,
            all_hex(d.take(i - start)),
            acc == hex_value(d.take(i - start)),
        decreases n - i,
    {
        let c = chars[i];
        let ghost k = (i - start) as nat;
        assert(d[k as int] == c);
        let digit: usize;
        if '0' <= c && c <= '9' {
            digit = (c as u32 - '0' as u32) as usize;
        } else if 'a' <= c && c <= 'f' {
            digit = (c as u32 - 'a' as u32 + 10) as usize;
        } else if 'A' <= c && c <= 'F' {
            digit = (c as u32 - 'A' as u32 + 10) as usize;
        } else {
            proof {
                lemma_hex_run_is(d, k);
            }
            return Err(HexError::InvalidDigit);
        }
        assert(d.take(k + 1int).drop_last() =~= d.take(k as int));
        assert(d.take(k + 1int).last() == c);
        assert(hex_value(d.take(k + 1int)) == acc * 16 + digit);
        assert(all_hex(d.take(k + 1int))) by {
            assert forall|j: int| 0 <= j < k + 1 implies is_hex_digit(#[trigger] d.take(k + 1int)[j]) by {
                if j < k {
                    assert(d.take(k + 1int)[j] == d.take(k as int)[j]);
                }
            }
        }
        match acc.checked_mul(16) {
            Some(m) => {
                match m.checked_add(digit) {
                    Some(v) => {
                        acc = v;
                    },
                    None => {
                        proof { lemma_overflow_reported(d, (k + 1) as nat); }
                        return Err(HexError::PosOverflow);
                    },
                }
            },
            None => {
                proof { lemma_overflow_reported(d, (k + 1) as nat); }
                return Err(HexError::PosOverflow);
            },
        }
        i = i + 1;
    }
    proof {
        assert(d.take(d.len() as int) =~= d);
        lemma_hex_run_is(d, d.len());
    }
    Ok(acc)
}

/// When a valid run of `j` digits already exceeds `usize::MAX`, so does the
/// longest run.
proof fn lemma_overflow_reported(d: Seq<char>, j: nat)
    requires
        j <= d.len(),
        all_hex(d.take(j as int)),
        hex_value(d.take(j as int)) > usize::MAX,
    ensures
        hex_value(d.take(hex_run(d) as int)) > usize::MAX,
{
    // the run of digits is at least `j` long
    lemma_hex_run_exists(d);
    let r = hex_run(d);
    if r < j {
        assert(d.take(j as int)[r as int] == d[r as int]);
        assert(false);
    }
    lemma_hex_value_monotone(d, j, r);
}

proof fn lemma_hex_run_exists(d: Seq<char>)
    ensures
        is_hex_run(d, hex_run(d)),
{
    // the first non-digit (or the end) is a witness
    assert(d.take(0) =~= Seq::<char>::empty());
    lemma_hex_run_from(d, 0);
}

proof fn lemma_hex_run_from(d: Seq<char>, k: nat)
    requires
        k <= d.len(),
        all_hex(d.take(k as int)),
    ensures
        is_hex_run(d, hex_run(d)),
    decreases d.len() - k,
{
    if k == d.len() || !is_hex_digit(d[k as int]) {
        assert(is_hex_run(d, k));
    } else {
        assert(all_hex(d.take(k + 1int))) by {
            assert forall|j: int| 0 <= j < k + 1 implies is_hex_digit(#[trigger] d.take(k + 1int)[j]) by {
                if j < k {
                    assert(d.take(k + 1int)[j] == d.take(k as int)[j]);
                }
            }
        }
        lemma_hex_run_from(d, (k + 1) as nat);
    }
}

proof fn lemma_digit_char_is_hex(d: nat, upper: bool)
    requires
        d < 16,
    ensures
        is_hex_digit(digit_char(d, upper)),
        hex_digit_value(digit_char(d, upper)) == d,
{
}

pub(crate) proof fn lemma_radix16_digits(v: nat, upper: bool)
    ensures
        all_hex(radix_digits(v, 16, upper)),
        hex_value(radix_digits(v, 16, upper)) == v,
    decreases v,
{
    let ds = radix_digits(v, 16, upper);
    if v < 16 {
        lemma_digit_char_is_hex(v, upper);
        assert(ds.drop_last() =~= Seq::<char>::empty());
        assert(hex_value(ds.drop_last()) == 0);
        assert(hex_value(ds) == hex_value(ds.drop_last()) * 16 + hex_digit_value(ds.last()));
    } else {
        lemma_quotient_smaller(v, 16);
        lemma_radix16_digits(v / 16, upper);
        lemma_digit_char_is_hex(v % 16, upper);
        let prev = radix_digits(v / 16, 16, upper);
        assert(ds == prev.push(digit_char(v % 16, upper)));
        assert(ds.drop_last() =~= prev);
        assert(all_hex(ds)) by {
            assert forall|i: int| 0 <= i < ds.len() implies is_hex_digit(#[trigger] ds[i]) by {
                if i < prev.len() {
                    assert(ds[i] == prev[i]);
                }
            }
        }
        assert(hex_value(ds) == hex_value(prev) * 16 + hex_digit_value(digit_char(v % 16, upper)));
        assert(v == (v / 16) * 16 + v % 16) by (nonlinear_arith);
    }
}

proof fn lemma_zeros_value(n: nat)
    ensures
        all_hex(repeat_char('0', n)),
        hex_value(repeat_char('0', n)) == 0,
    decreases n,
{
    lemma_repeat_char('0', n);
    if n > 0 {
        lemma_zeros_value((n - 1) as nat);
        lemma_repeat_char('0', (n - 1) as nat);
        let z = repeat_char('0', n);
        assert(z.drop_last() =~= repeat_char('0', (n - 1) as nat));
        assert(all_hex(z)) by {
            assert forall|i: int| 0 <= i < z.len() implies is_hex_digit(#[trigger] z[i]) by {
                if i < n - 1 {
                    assert(z[i] == repeat_char('0', (n - 1) as nat)[i]);
                }
            }
        }
    }
}

proof fn lemma_leading_zeros_value(n: nat, s: Seq<char>)
    requires
        all_hex(s),
    ensures
        all_hex(repeat_char('0', n) + s),
        hex_value(repeat_char('0', n) + s) == hex_value(s),
    decreases s.len(),
{
    let z = repeat_char('0', n);
    lemma_zeros_value(n);
    if s.len() == 0 {
        assert(z + s =~= z);
    } else {
        assert(all_hex(s.drop_last())) by {
            assert forall|i: int| 0 <= i < s.drop_last().len() implies is_hex_digit(#[trigger] s.drop_last()[i]) by {
                assert(s.drop_last()[i] == s[i]);
            }
        }
        lemma_leading_zeros_value(n, s.drop_last());
        assert((z + s).drop_last() =~= z + s.drop_last());
        assert((z + s).last() == s.last());
    }
    assert(all_hex(z + s)) by {
        assert forall|i: int| 0 <= i < (z + s).len() implies is_hex_digit(#[trigger] (z + s)[i]) by {
            if i < z.len() {
                assert((z + s)[i] == z[i]);
            } else {
                assert((z + s)[i] == s[i - z.len()]);
            }
        }
    }
}

/// Parsing what `format_hex` printed gives the number back, whatever the
/// width and the letter case: `from_hex(format_hex(v, w, u)) == Ok(v)`.
pub proof fn lemma_hex_round_trip(v: u64, width: nat, upper: bool)
    requires
        v <= usize::MAX,
    ensures
        spec_from_hex(spec_hex(v as nat, width, upper)) == Ok::<usize, HexError>(v as usize),
{
    let ds = radix_digits(v as nat, 16, upper);
    lemma_radix16_digits(v as nat, upper);
    let t = spec_hex(v as nat, width, upper);
    if ds.len() < width {
        lemma_leading_zeros_value((width - ds.len()) as nat, ds);
    } else {
        assert(t == ds);
    }
    assert(all_hex(t));
    assert(hex_value(t) == v);
    assert(t.len() > 0) by {
        if ds.len() < width {
        } else {
            assert(ds.len() > 0);
        }
    }
    // neither an "0x" prefix nor a sign is present
    assert(is_hex_digit(t[0]));
    if t.len() >= 2 {
        assert(is_hex_digit(t[1]));
    }
    assert(strip_hex_prefixes(t) == t);
    assert(unsigned_digits(t) == t);
    assert(t.take(t.len() as int) =~= t);
    lemma_hex_run_is(t, t.len());
}

/// The value of a command argument when it is a hexadecimal number; `None`
/// leaves it to the debugger's expression evaluator, which is asked only
/// then.
pub fn from_hex_or_eval(s: &str) -> (res: Option<usize>)
    ensures
        res == match spec_from_hex(s@) {
            Ok(v) => Some(v),
            Err(_) => None::<usize>,
        },
{
    match from_hex(s) {
        Ok(v) => Some(v),
        Err(_) => None,
    }
}

/// The general registers of the debuggee's thread, as the debugger's
/// register dump holds them.
#[derive(Debug, Clone, Copy)]
pub struct RegisterContext {
    pub cax: u64,
    pub ccx: u64,
    pub cdx: u64,
    pub cbx: u64,
    pub csp: u64,
    pub cbp: u64,
    pub csi: u64,
    pub cdi: u64,
    pub r8: u64,
    pub r9: u64,
    pub r10: u64,
    pub r11: u64,
    pub r12: u64,
    pub r13: u64,
    pub r14: u64,
    pub r15: u64,
    pub cip: u64,
    pub eflags: u64,
}

/// The registers `print_regs` shows, in order, with their names.
pub open spec fn spec_print_regs(ctx: RegisterContext) -> Seq<(u64, Seq<char>)> {
    seq![
        (ctx.cax, "rax"@), (ctx.ccx, "rcx"@), (ctx.cdx, "rdx"@), (ctx.cbx, "rbx"@),
        (ctx.csp, "rsp"@), (ctx.cbp, "rbp"@), (ctx.csi, "rsi"@), (ctx.cdi, "rdi"@),
        (ctx.r8, "r8"@), (ctx.r9, "r9"@), (ctx.r10, "r10"@), (ctx.r11, "r11"@),
        (ctx.r12, "r12"@), (ctx.r13, "r13"@), (ctx.r14, "r14"@), (ctx.r15, "r15"@),
        (ctx.cip, "rip"@),
    ]
}

/// The registers that the context view lists, each with its name: the
/// sixteen general registers and `rip`.
pub fn register_view(ctx: &RegisterContext) -> (res: Vec<(u64, String)>)
    ensures
        res@.len() == spec_print_regs(*ctx).len(),
        forall|i: int|
            0 <= i < res@.len() ==> (#[trigger] res@[i]).0 == spec_print_regs(*ctx)[i].0
                && res@[i].1@ == spec_print_regs(*ctx)[i].1,
{
    let mut v: Vec<(u64, String)> = Vec::new();
    v.push((ctx.cax, String::from_str("rax")));
    v.push((ctx.ccx, String::from_str("rcx")));
    v.push((ctx.cdx, String::from_str("rdx")));
    v.push((ctx.cbx, String::from_str("rbx")));
    v.push((ctx.csp, String::from_str("rsp")));
    v.push((ctx.cbp, String::from_str("rbp")));
    v.push((ctx.csi, String::from_str("rsi")));
    v.push((ctx.cdi, String::from_str("rdi")));
    v.push((ctx.r8, String::from_str("r8")));
    v.push((ctx.r9, String::from_str("r9")));
    v.push((ctx.r10, String::from_str("r10")));
    v.push((ctx.r11, String::from_str("r11")));
    v.push((ctx.r12, String::from_str("r12")));
    v.push((ctx.r13, String::from_str("r13")));
    v.push((ctx.r14, String::from_str("r14")));
    v.push((ctx.r15, String::from_str("r15")));
    v.push((ctx.cip, String::from_str("rip")));
    v
}

/// One line of the register view: the name (padded to three characters) in
/// colour 1, an `=` in the comment colour, then the telescope of its value.
pub open spec fn spec_register_line(
    name: Seq<char>,
    telescope: Seq<char>,
    color1: Seq<char>,
    comment: Seq<char>,
) -> Seq<char> {
    spec_a(pad_back(name, 3), color1, ""@) + " "@ + spec_a("="@, comment, ""@) + " "@ + telescope
        + "<br>"@
}

/// Formats one line of the register view.
pub fn register_line(name: &str, telescope: &str, palette: &Palette) -> (res: String)
    requires
        palette.wf(),
    ensures
        res@ == spec_register_line(name@, telescope@, palette.spec_color(1), palette.comment@),
{
    let padded = align_left(name, 3);
    let mut line = a(padded.as_str(), palette.get_color(1), "");
    line.append(" ");
    let eq = a("=", palette.get_color_comment(), "");
    line.append(eq.as_str());
    line.append(" ");
    line.append(telescope);
    line.append("<br>");
    line
}

/// The register view: for each register of `register_view`, in order, its
/// line with the telescope of its value eight levels deep. `chains[k]` is
/// what the debugger said about the addresses on the way from the value of
/// register `k` (see `telescope_next_query`).
pub fn print_regs(ctx: &RegisterContext, chains: &Vec<Vec<AddressInfo>>, palette: &Palette) -> (res: Vec<String>)
    requires
        palette.wf(),
        chains@.len() == spec_print_regs(*ctx).len(),
    ensures
        res@.len() == spec_print_regs(*ctx).len(),
        forall|k: int|
            0 <= k < res@.len() ==> (#[trigger] res@[k])@ == spec_register_line(
                spec_print_regs(*ctx)[k].1,
                spec_telescope_line(
                    Seq::empty(),
                    spec_print_regs(*ctx)[k].0 as usize,
                    8,
                    chains@[k]@,
                    *palette,
                ),
                palette.spec_color(1),
                palette.comment@,
            ),
{
    let entries = register_view(ctx);
    let mut lines: Vec<String> = Vec::new();
    let mut k: usize = 0;
    while k < entries.len()
        invariant
            k <= entries@.len(),
            palette.wf(),
            entries@.len() == spec_print_regs(*ctx).len(),
            chains@.len() == spec_print_regs(*ctx).len(),
            forall|j: int|
                0 <= j < entries@.len() ==> (#[trigger] entries@[j]).0 == spec_print_regs(*ctx)[j].0
                    && entries@[j].1@ == spec_print_regs(*ctx)[j].1,
            lines@.len() == k,
            forall|j: int|
                0 <= j < k ==> (#[trigger] lines@[j])@ == spec_register_line(
                    spec_print_regs(*ctx)[j].1,
                    spec_telescope_line(
                        Seq::empty(),
                        spec_print_regs(*ctx)[j].0 as usize,
                        8,
                        chains@[j]@,
                        *palette,
                    ),
                    palette.spec_color(1),
                    palette.comment@,
                ),
        decreases entries@.len() - k,
    {
        let value = entries[k].0;
        assert(value == spec_print_regs(*ctx)[k as int].0);
        let mut t = String::new();
        telescope_line(value as usize, 8, &chains[k], palette, &mut t);
        lines.push(register_line(entries[k].1.as_str(), t.as_str(), palette));
        k = k + 1;
    }
    lines
}

/// What a view of the context asks the plugin to do next.
#[derive(Debug)]
pub enum ContextStep {
    /// Write this message to the log and stop.
    Log(String),
    /// Telescope `size` pointers from `addr`, following `rcount` levels.
    Telescope { addr: usize, size: usize, rcount: u32 },
    /// Emulate `count` instructions from `addr`.
    Emulate { addr: usize, count: usize },
}

/// The stack view, given what evaluating `rsp` gave (found, value): ten
/// pointers from the stack pointer, eight levels deep.
pub fn print_stack(rsp: (bool, usize)) -> (res: ContextStep)
    ensures
        !rsp.0 ==> (res matches ContextStep::Log(m) && m@ == "rsp not found"@),
        rsp.0 ==> res == (ContextStep::Telescope { addr: rsp.1, size: 10, rcount: 8 }),
{
    if !rsp.0 {
        return ContextStep::Log(String::from_str("rsp not found"));
    }
    ContextStep::Telescope { addr: rsp.1, size: 10, rcount: 8 }
}

/// The code view, given what evaluating `rip` gave (found, value): fifteen
/// instructions emulated from the instruction pointer.
pub fn print_emu(rip: (bool, usize)) -> (res: ContextStep)
    ensures
        !rip.0 ==> (res matches ContextStep::Log(m) && m@ == "rip not found"@),
        rip.0 ==> res == (ContextStep::Emulate { addr: rip.1, count: 15 }),
{
    if !rip.0 {
        return ContextStep::Log(String::from_str("rip not found"));
    }
    ContextStep::Emulate { addr: rip.1, count: 15 }
}

/// A section title of the context view, in colour 0.
pub open spec fn spec_header(title: Seq<char>, color0: Seq<char>) -> Seq<char> {
    spec_a(title, color0, ""@) + "<br>"@
}

fn header(title: &str, palette: &Palette) -> (res: String)
    requires
        palette.wf(),
    ensures
        res@ == spec_header(title@, palette.spec_color(0)),
{
    let mut h = a(title, palette.get_color(0), "");
    h.append("<br>");
    h
}

/// The three section titles of the context view, in the order the sections
/// come: the registers, the emulated code, the stack.
pub fn print_context(palette: &Palette) -> (res: Vec<String>)
    requires
        palette.wf(),
    ensures
        res@.len() == 3,
        res@[0]@ == spec_header("--- Registers ---"@, palette.spec_color(0)),
        res@[1]@ == spec_header("--- Code [Unicorn] ---"@, palette.spec_color(0)),
        res@[2]@ == spec_header("--- Stack ---"@, palette.spec_color(0)),
{
    let mut v: Vec<String> = Vec::new();
    v.push(header("--- Registers ---", palette));
    v.push(header("--- Code [Unicorn] ---", palette));
    v.push(header("--- Stack ---", palette));
    v
}

/// How far below an address `get_label` looks for a label.
pub const LABEL_SEARCH_RANGE: usize = 0x2000;

/// A label found `distance` bytes below an address: the label, followed by
/// ` +` and the distance in at least three hexadecimal digits when it is not 0.
pub open spec fn spec_label_with_offset(label: Seq<char>, distance: nat) -> Seq<char> {
    if distance == 0 {
        label
    } else {
        label + " +"@ + crate::common::format::spec_hex(distance, 3, false)
    }
}

/// Names an address after the nearest label at or below it.
pub fn label_with_offset(label: &str, distance: usize) -> (res: String)
    ensures
        res@ == spec_label_with_offset(label@, distance as nat),
{
    let mut s = String::from_str(label);
    if distance != 0 {
        s.append(" +");
        let h = format_hex(distance as u64, 3, false);
        s.append(h.as_str());
    }
    s
}

/// How the search for the label of an address goes on.
#[derive(Debug)]
pub enum LabelStep {
    /// The search is over: the label, possibly empty.
    Found(String),
    /// Ask for the label exactly at this address next; `None` when the
    /// address would lie below 0.
    Probe(Option<usize>),
}

/// `probes[k]` is the first label found, `k` bytes below the address.
pub open spec fn spec_label_found_at(probes: Seq<String>, k: int) -> bool {
    &&& 0 <= k < probes.len()
    &&& probes[k]@.len() != 0
    &&& forall|j: int| 0 <= j < k ==> (#[trigger] probes[j])@.len() == 0
}

/// The label of `addr`, given the labels exactly at `addr`, `addr - 1`, ...
/// found so far (`probes`): the first label found, with its distance; an
/// empty label when none is found within `LABEL_SEARCH_RANGE` bytes;
/// otherwise the next address to ask about.
pub fn get_label(addr: usize, probes: &Vec<String>) -> (res: LabelStep)
    ensures
        forall|k: int|
            #[trigger] spec_label_found_at(probes@, k) ==> (res matches LabelStep::Found(l) && l@
                == spec_label_with_offset(probes@[k]@, k as nat)),
        (forall|k: int| !#[trigger] spec_label_found_at(probes@, k)) && probes@.len() >= LABEL_SEARCH_RANGE
            ==> (res matches LabelStep::Found(l) && l@.len() == 0),
        (forall|k: int| !#[trigger] spec_label_found_at(probes@, k)) && probes@.len() < LABEL_SEARCH_RANGE
            ==> (res matches LabelStep::Probe(p) && p == (if probes@.len() <= addr {
                Some((addr - probes@.len()) as usize)
            } else {
                None::<usize>
            })),
{
    let mut i: usize = 0;
    while i < probes.len()
        invariant
            i <= probes@.len(),
            forall|j: int| 0 <= j < i ==> (#[trigger] probes@[j])@.len() == 0,
        decreases probes.len() - i,
    {
        if !probes[i].as_str().is_empty() {
            proof {
                assert(spec_label_found_at(probes@, i as int));
                assert forall|k: int| #[trigger] spec_label_found_at(probes@, k) implies k == i by {
                    if k < i {
                        assert(probes@[k]@.len() == 0);
                    }
                    if k > i {
                        assert(probes@[i as int]@.len() == 0);
                    }
                }
            }
            return LabelStep::Found(label_with_offset(probes[i].as_str(), i));
        }
        i = i + 1;
    }
    assert forall|k: int| !#[trigger] spec_label_found_at(probes@, k) by {
        if 0 <= k < probes@.len() {
            assert(probes@[k]@.len() == 0);
        }
    }
    if probes.len() >= LABEL_SEARCH_RANGE {
        return LabelStep::Found(String::new());
    }
    if probes.len() <= addr {
        LabelStep::Probe(Some(addr - probes.len()))
    } else {
        LabelStep::Probe(None)
    }
}

/// Why a command's arguments are refused.
#[derive(Debug, Clone, Copy, PartialEq, Eq, Structural)]
pub enum CommandError {
    /// No address was given.
    Usage,
    /// The address evaluates to 0.
    InvalidAddress,
}

/// What the `telescope` command does with the values of its arguments (the
/// command name excluded): the address, then optionally the number of
/// pointers (default 0x10) and the recursion depth (default 8, truncated to
/// 32 bits); a 0 leaves the default.
pub open spec fn spec_telescope_args(args: Seq<usize>) -> Result<(usize, usize, u32), CommandError> {
    if args.len() < 1 {
        Err(CommandError::Usage)
    } else if args[0] == 0 {
        Err(CommandError::InvalidAddress)
    } else {
        let size: usize = if args.len() > 1 && args[1] != 0 { args[1] } else { 0x10 };
        let rcount: u32 = if args.len() > 2 && args[2] != 0 { args[2] as u32 } else { 8 };
        Ok((args[0], size, rcount))
    }
}

/// Interprets the arguments of the `telescope` command.
pub fn telescope_args(args: &Vec<usize>) -> (res: Result<(usize, usize, u32), CommandError>)
    ensures
        res == spec_telescope_args(args@),
{
    if args.len() < 1 {
        return Err(CommandError::Usage);
    }
    let addr = args[0];
    if addr == 0 {
        return Err(CommandError::InvalidAddress);
    }
    let mut size: usize = 0x10;
    if args.len() > 1 && args[1] != 0 {
        size = args[1];
    }
    let mut rcount: u32 = 8;
    if args.len() > 2 && args[2] != 0 {
        rcount = args[2] as u32;
    }
    Ok((addr, size, rcount))
}

/// What the `unicorn` command does with the values of its arguments: the
/// address, then optionally the number of instructions (default 0x10; a 0
/// leaves the default).
pub open spec fn spec_unicorn_args(args: Seq<usize>) -> Result<(usize, usize), CommandError> {
    if args.len() < 1 {
        Err(CommandError::Usage)
    } else if args[0] == 0 {
        Err(CommandError::InvalidAddress)
    } else {
        let size: usize = if args.len() > 1 && args[1] != 0 { args[1] } else { 0x10 };
        Ok((args[0], size))
    }
}

/// Interprets the arguments of the `unicorn` command.
pub fn unicorn_args(args: &Vec<usize>) -> (res: Result<(usize, usize), CommandError>)
    ensures
        res == spec_unicorn_args(args@),
{
    if args.len() < 1 {
        return Err(CommandError::Usage);
    }
    let addr = args[0];
    if addr == 0 {
        return Err(CommandError::InvalidAddress);
    }
    let mut size: usize = 0x10;
    if args.len() > 1 && args[1] != 0 {
        size = args[1];
    }
    Ok((addr, size))
}

/// Which argument a command evaluates next, given the `argc` words of the
/// command line (its name first), the values of the arguments evaluated so
/// far and how many arguments the command uses: the first arguments in
/// order, up to those it uses or there are; none after an address that
/// evaluates to 0.
pub open spec fn spec_argument_to_read(argc: nat, read: Seq<usize>, used: nat) -> Option<nat> {
    if read.len() >= 1 && read[0] == 0 {
        None
    } else if read.len() < used && read.len() + 1 < argc {
        Some(read.len() + 1)
    } else {
        None
    }
}

/// The position on the command line of the next argument to evaluate, or
/// `None` once the command has the values it needs (see
/// `spec_argument_to_read`).
pub fn argument_to_read(argc: usize, read: &Vec<usize>, used: usize) -> (res: Option<usize>)
    ensures
        res == (match spec_argument_to_read(argc as nat, read@, used as nat) {
            Some(i) => Some(i as usize),
            None => None::<usize>,
        }),
{
    if read.len() >= 1 && read[0] == 0 {
        None
    } else if read.len() < used && argc >= 1 && read.len() < argc - 1 {
        Some(read.len() + 1)
    } else {
        None
    }
}

/// Evaluating only the arguments that `argument_to_read` asks for changes
/// nothing: the `telescope` command (which uses three) and the `unicorn`
/// command (which uses two) decide on those values as they would on the
/// values of all the arguments.
pub proof fn lemma_arguments_read_suffice(all: Seq<usize>, k: nat)
    requires
        k <= all.len(),
    ensures
        spec_argument_to_read(all.len() + 1, all.take(k as int), 3) is None ==> spec_telescope_args(
            all.take(k as int),
        ) == spec_telescope_args(all),
        spec_argument_to_read(all.len() + 1, all.take(k as int), 2) is None ==> spec_unicorn_args(
            all.take(k as int),
        ) == spec_unicorn_args(all),
{
    let read = all.take(k as int);
    if k == all.len() {
        assert(read =~= all);
    }
}

/// How the commands read their arguments: without an argument they ask
/// for usage; an address of 0 is refused; otherwise the address is the
/// first argument, the size is the second argument whenever it is given and
/// not 0 (whatever follows it) and 0x10 otherwise, and the recursion depth
/// is the third argument (truncated to 32 bits) whenever it is given and not
/// 0, and 8 otherwise. Arguments past those a command uses change nothing,
/// and `unicorn` reads its address and size as `telescope` does.
pub proof fn lemma_command_arguments(args: Seq<usize>)
    ensures
        args.len() == 0 ==> spec_telescope_args(args) == Err::<(usize, usize, u32), CommandError>(
            CommandError::Usage,
        ),
        args.len() >= 1 && args[0] == 0 ==> spec_telescope_args(args) == Err::<(usize, usize, u32), CommandError>(
            CommandError::InvalidAddress,
        ),
        args.len() >= 1 && args[0] != 0 ==> {
            &&& spec_telescope_args(args) is Ok
            &&& spec_telescope_args(args)->Ok_0.0 == args[0]
            &&& args.len() >= 2 && args[1] != 0 ==> spec_telescope_args(args)->Ok_0.1 == args[1]
            &&& (args.len() < 2 || args[1] == 0) ==> spec_telescope_args(args)->Ok_0.1 == 0x10
            &&& args.len() >= 3 && args[2] != 0 ==> spec_telescope_args(args)->Ok_0.2 == args[2] as u32
            &&& (args.len() < 3 || args[2] == 0) ==> spec_telescope_args(args)->Ok_0.2 == 8
        },
        args.len() > 3 ==> spec_telescope_args(args) == spec_telescope_args(args.take(3)),
        args.len() > 2 ==> spec_unicorn_args(args) == spec_unicorn_args(args.take(2)),
        spec_unicorn_args(args) == (match spec_telescope_args(args) {
            Ok((addr, size, _)) => Ok::<(usize, usize), CommandError>((addr, size)),
            Err(e) => Err(e),
        }),
{
}

/// The usage line of a command (`telescope` when `with_depth`, else `unicorn`)
/// called as `cmd`.
pub fn command_usage(cmd: &str, with_depth: bool) -> (res: String)
    ensures
        res@ == "Usage: "@ + cmd@ + (if with_depth {
            " {address}[,size in hex][,recursion count]"@
        } else {
            " {address},[size]"@
        }),
{
    let mut s = String::from_str("Usage: ");
    s.append(cmd);
    if with_depth {
        s.append(" {address}[,size in hex][,recursion count]");
    } else {
        s.append(" {address},[size]");
    }
    s
}

/// A leading `0x` changes nothing: `from_hex("0x" + s) == from_hex(s)`.
pub proof fn lemma_from_hex_ignores_prefix(s: Seq<char>)
    ensures
        spec_from_hex("0x"@ + s) == spec_from_hex(s),
{
    reveal_strlit("0x");
    let t = "0x"@ + s;
    assert(t[0] == '0' && t[1] == 'x');
    assert(t.subrange(2, t.len() as int) =~= s);
}

} // verus!
