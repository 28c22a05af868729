//! Memory mapping and register bookkeeping for the instruction emulator.
use vstd::prelude::*;
use crate::common::disasm::{
    Decoded, OperandKind, REG_NONE, REG_GS, decoded_op_count, decoded_op_kind, decoded_op_register,
    decoded_op0_register, decoded_memory_base, decoded_memory_index, decoded_memory_index_scale,
    decoded_memory_displacement, decoded_segment_prefix, decoded_len, instr_op_count, instr_op_kind,
    instr_op_register, instr_op0_register, instr_memory_base, instr_memory_index,
    instr_memory_index_scale, instr_memory_displacement, instr_segment_prefix, instr_len,
    is_ip_rel_memory_operand, REG_RIP, REG_EIP,
};
use crate::common::{RegisterContext, HexError, all_hex, hex_value, spec_from_hex, lemma_hex_round_trip, lemma_radix16_digits};
use crate::common::disasm::{register_debug_name, register_name, instr_ip, decoded_ip, format_instr, intel_text};
use crate::common::format::{format_hex, spec_hex, align_right, align_left, pad_front, pad_back, radix_digits, lemma_quotient_smaller};
use crate::colors::{a, spec_a, Palette};
use crate::telescope::{AddressInfo, spec_join, spec_telescope_line, telescope_line};

verus! {

/// Size of a page of the emulator's memory.
pub const PAGE_SIZE: usize = 0x1000;

/// Start of the page that holds `addr`.
pub open spec fn spec_page_align(addr: nat) -> nat {
    (addr - addr % 0x1000) as nat
}

/// Rounds an address down to the start of its page.
pub fn page_align(addr: usize) -> (res: usize)
    ensures
        res == spec_page_align(addr as nat),
{
    assert(addr & !0xfffusize == addr - addr % 0x1000) by (bit_vector);
    addr & !(0x1000 - 1)
}

/// The region that is mapped when the emulator touches `size` bytes at
/// `addr`: the page of `addr`, and `size` rounded down to pages plus one page.
pub fn get_aligned_addr_and_size(addr: usize, size: usize) -> (res: (usize, usize))
    requires
        spec_page_align(size as nat) + 0x1000 <= usize::MAX,
    ensures
        res.0 == spec_page_align(addr as nat),
        res.1 == spec_page_align(size as nat) + 0x1000,
{
    let addr = page_align(addr);
    let size = page_align(size) + 0x1000;
    (addr, size)
}

/// A page start is its own page start, and it is a multiple of the page
/// size no greater than the address, less than a page below it.
pub proof fn lemma_page_align(addr: nat)
    ensures
        spec_page_align(addr) % 0x1000 == 0,
        spec_page_align(addr) <= addr < spec_page_align(addr) + 0x1000,
        spec_page_align(spec_page_align(addr)) == spec_page_align(addr),
{
    let r = addr % 0x1000;
    assert(0 <= r < 0x1000);
    assert(addr == (addr / 0x1000) * 0x1000 + r);
    assert(((addr / 0x1000) * 0x1000) % 0x1000 == 0) by (nonlinear_arith);
}

/// The mapped region always starts at or below the first byte touched,
/// covers that byte, is page-aligned and a whole number of pages long, and
/// is longer than the access. It covers the whole access exactly when the
/// offset of `addr` in its page and the part of `size` beyond whole pages
/// add up to at most one page.
pub proof fn lemma_aligned_region(addr: nat, size: nat)
    ensures
        ({
            let start = spec_page_align(addr);
            let len = spec_page_align(size) + 0x1000;
            &&& start % 0x1000 == 0
            &&& len % 0x1000 == 0
            &&& start <= addr < start + len
            &&& size < len
            &&& (addr + size <= start + len <==> addr % 0x1000 + size % 0x1000 <= 0x1000)
        }),
{
    lemma_page_align(addr);
    lemma_page_align(size);
    assert((spec_page_align(size) + 0x1000) % 0x1000 == 0);
}

/// The registers of the emulator (`unicorn_engine::RegisterX86`) that this
/// library names.
#[allow(non_camel_case_types)]
#[derive(Debug, Clone, Copy, PartialEq, Eq, Structural)]
pub enum UnicornReg {
    AL,
    CL,
    DL,
    BL,
    AH,
    CH,
    DH,
    BH,
    SPL,
    BPL,
    SIL,
    DIL,
    R8B,
    R9B,
    R10B,
    R11B,
    R12B,
    R13B,
    R14B,
    R15B,
    AX,
    CX,
    DX,
    BX,
    SP,
    BP,
    SI,
    DI,
    R8W,
    R9W,
    R10W,
    R11W,
    R12W,
    R13W,
    R14W,
    R15W,
    EAX,
    ECX,
    EDX,
    EBX,
    ESP,
    EBP,
    ESI,
    EDI,
    R8D,
    R9D,
    R10D,
    R11D,
    R12D,
    R13D,
    R14D,
    R15D,
    RAX,
    RCX,
    RDX,
    RBX,
    RSP,
    RBP,
    RSI,
    RDI,
    R8,
    R9,
    R10,
    R11,
    R12,
    R13,
    R14,
    R15,
    EIP,
    RIP,
    ES,
    CS,
    SS,
    DS,
    FS,
    GS,
    EFLAGS,
    GS_BASE,
}

/// The emulator register for the `iced_x86` register with code `r`: the
/// register of the same name, where `R8L`..`R15L` are called `R8B`..`R15B`.
/// Registers the emulator is not given (no register, vector registers, ...)
/// fall back to `RAX`.
pub open spec fn spec_iced_reg_to_unicorn(r: u8) -> UnicornReg {
    match r {
        1 => UnicornReg::AL,
        2 => UnicornReg::CL,
        3 => UnicornReg::DL,
        4 => UnicornReg::BL,
        5 => UnicornReg::AH,
        6 => UnicornReg::CH,
        7 => UnicornReg::DH,
        8 => UnicornReg::BH,
        9 => UnicornReg::SPL,
        10 => UnicornReg::BPL,
        11 => UnicornReg::SIL,
        12 => UnicornReg::DIL,
        13 => UnicornReg::R8B,
        14 => UnicornReg::R9B,
        15 => UnicornReg::R10B,
        16 => UnicornReg::R11B,
        17 => UnicornReg::R12B,
        18 => UnicornReg::R13B,
        19 => UnicornReg::R14B,
        20 => UnicornReg::R15B,
        21 => UnicornReg::AX,
        22 => UnicornReg::CX,
        23 => UnicornReg::DX,
        24 => UnicornReg::BX,
        25 => UnicornReg::SP,
        26 => UnicornReg::BP,
        27 => UnicornReg::SI,
        28 => UnicornReg::DI,
        29 => UnicornReg::R8W,
        30 => UnicornReg::R9W,
        31 => UnicornReg::R10W,
        32 => UnicornReg::R11W,
        33 => UnicornReg::R12W,
        34 => UnicornReg::R13W,
        35 => UnicornReg::R14W,
        36 => UnicornReg::R15W,
        37 => UnicornReg::EAX,
        38 => UnicornReg::ECX,
        39 => UnicornReg::EDX,
        40 => UnicornReg::EBX,
        41 => UnicornReg::ESP,
        42 => UnicornReg::EBP,
        43 => UnicornReg::ESI,
        44 => UnicornReg::EDI,
        45 => UnicornReg::R8D,
        46 => UnicornReg::R9D,
        47 => UnicornReg::R10D,
        48 => UnicornReg::R11D,
        49 => UnicornReg::R12D,
        50 => UnicornReg::R13D,
        51 => UnicornReg::R14D,
        52 => UnicornReg::R15D,
        53 => UnicornReg::RAX,
        54 => UnicornReg::RCX,
        55 => UnicornReg::RDX,
        56 => UnicornReg::RBX,
        57 => UnicornReg::RSP,
        58 => UnicornReg::RBP,
        59 => UnicornReg::RSI,
        60 => UnicornReg::RDI,
        61 => UnicornReg::R8,
        62 => UnicornReg::R9,
        63 => UnicornReg::R10,
        64 => UnicornReg::R11,
        65 => UnicornReg::R12,
        66 => UnicornReg::R13,
        67 => UnicornReg::R14,
        68 => UnicornReg::R15,
        69 => UnicornReg::EIP,
        70 => UnicornReg::RIP,
        71 => UnicornReg::ES,
        72 => UnicornReg::CS,
        73 => UnicornReg::SS,
        74 => UnicornReg::DS,
        75 => UnicornReg::FS,
        76 => UnicornReg::GS,
        _ => UnicornReg::RAX,
    }
}

/// Whether the `iced_x86` register with code `r` has an emulator counterpart:
/// the general, instruction pointer and segment registers, codes 1 to 76.
pub open spec fn spec_has_unicorn_counterpart(r: u8) -> bool {
    1 <= r <= 76
}

/// Distinct registers with an emulator counterpart have distinct
/// counterparts: the emulator never reads one register in place of another.
pub proof fn lemma_iced_reg_to_unicorn_injective(r1: u8, r2: u8)
    requires
        spec_has_unicorn_counterpart(r1),
        spec_has_unicorn_counterpart(r2),
        r1 != r2,
    ensures
        spec_iced_reg_to_unicorn(r1) != spec_iced_reg_to_unicorn(r2),
{
}

/// Converts an `iced_x86` register code to the emulator's register.
pub fn iced_reg_to_unicorn(r: u8) -> (res: UnicornReg)
    ensures
        res == spec_iced_reg_to_unicorn(r),
{
    match r {
        1 => UnicornReg::AL,
        2 => UnicornReg::CL,
        3 => UnicornReg::DL,
        4 => UnicornReg::BL,
        5 => UnicornReg::AH,
        6 => UnicornReg::CH,
        7 => UnicornReg::DH,
        8 => UnicornReg::BH,
        9 => UnicornReg::SPL,
        10 => UnicornReg::BPL,
        11 => UnicornReg::SIL,
        12 => UnicornReg::DIL,
        13 => UnicornReg::R8B,
        14 => UnicornReg::R9B,
        15 => UnicornReg::R10B,
        16 => UnicornReg::R11B,
        17 => UnicornReg::R12B,
        18 => UnicornReg::R13B,
        19 => UnicornReg::R14B,
        20 => UnicornReg::R15B,
        21 => UnicornReg::AX,
        22 => UnicornReg::CX,
        23 => UnicornReg::DX,
        24 => UnicornReg::BX,
        25 => UnicornReg::SP,
        26 => UnicornReg::BP,
        27 => UnicornReg::SI,
        28 => UnicornReg::DI,
        29 => UnicornReg::R8W,
        30 => UnicornReg::R9W,
        31 => UnicornReg::R10W,
        32 => UnicornReg::R11W,
        33 => UnicornReg::R12W,
        34 => UnicornReg::R13W,
        35 => UnicornReg::R14W,
        36 => UnicornReg::R15W,
        37 => UnicornReg::EAX,
        38 => UnicornReg::ECX,
        39 => UnicornReg::EDX,
        40 => UnicornReg::EBX,
        41 => UnicornReg::ESP,
        42 => UnicornReg::EBP,
        43 => UnicornReg::ESI,
        44 => UnicornReg::EDI,
        45 => UnicornReg::R8D,
        46 => UnicornReg::R9D,
        47 => UnicornReg::R10D,
        48 => UnicornReg::R11D,
        49 => UnicornReg::R12D,
        50 => UnicornReg::R13D,
        51 => UnicornReg::R14D,
        52 => UnicornReg::R15D,
        53 => UnicornReg::RAX,
        54 => UnicornReg::RCX,
        55 => UnicornReg::RDX,
        56 => UnicornReg::RBX,
        57 => UnicornReg::RSP,
        58 => UnicornReg::RBP,
        59 => UnicornReg::RSI,
        60 => UnicornReg::RDI,
        61 => UnicornReg::R8,
        62 => UnicornReg::R9,
        63 => UnicornReg::R10,
        64 => UnicornReg::R11,
        65 => UnicornReg::R12,
        66 => UnicornReg::R13,
        67 => UnicornReg::R14,
        68 => UnicornReg::R15,
        69 => UnicornReg::EIP,
        70 => UnicornReg::RIP,
        71 => UnicornReg::ES,
        72 => UnicornReg::CS,
        73 => UnicornReg::SS,
        74 => UnicornReg::DS,
        75 => UnicornReg::FS,
        76 => UnicornReg::GS,
        _ => UnicornReg::RAX,
    }
}

/// Whether `iced_reg_to_unicorn` maps `r` to a register of its own rather
/// than falling back.
pub fn has_unicorn_counterpart(r: u8) -> (res: bool)
    ensures
        res == spec_has_unicorn_counterpart(r),
{
    1 <= r && r <= 76
}

/// `regs` with `r` added at the end, unless `r` is no register or is
/// already listed.
pub open spec fn add_register(regs: Seq<u8>, r: u8) -> Seq<u8> {
    if r != REG_NONE && !regs.contains(r) {
        regs.push(r)
    } else {
        regs
    }
}

/// The registers of the first `k` operands of an instruction added to
/// `regs`: the base then the index of a memory operand, the register of a
/// register operand.
pub open spec fn spec_operand_registers(bytes: Seq<u8>, ip: u64, regs: Seq<u8>, k: nat) -> Seq<u8>
    decreases k,
{
    if k == 0 {
        regs
    } else {
        let prev = spec_operand_registers(bytes, ip, regs, (k - 1) as nat);
        match decoded_op_kind(bytes, ip, (k - 1) as nat) {
            OperandKind::Memory => add_register(
                add_register(prev, decoded_memory_base(bytes, ip)),
                decoded_memory_index(bytes, ip),
            ),
            OperandKind::Register => add_register(
                prev,
                decoded_op_register(bytes, ip, (k - 1) as nat),
            ),
            OperandKind::Other => prev,
        }
    }
}

fn contains_register(regs: &Vec<u8>, r: u8) -> (res: bool)
    ensures
        res == regs@.contains(r),
{
    let mut i: usize = 0;
    while i < regs.len()
        invariant
            i <= regs@.len(),
            forall|j: int| 0 <= j < i ==> regs@[j] != r,
        decreases regs.len() - i,
    {
        if regs[i] == r {
            return true;
        }
        i = i + 1;
    }
    false
}

fn push_register(regs: &mut Vec<u8>, r: u8)
    ensures
        final(regs)@ == add_register(old(regs)@, r),
{
    if r != REG_NONE && !contains_register(regs, r) {
        regs.push(r);
    }
}

/// The registers shown beside an instruction: those that the previous
/// instruction wrote (`affected`), then those its operands use, each once.
pub fn instruction_registers(d: &Decoded, affected: &Vec<u8>) -> (res: Vec<u8>)
    ensures
        res@ == spec_operand_registers(
            d.code_bytes(),
            d.address(),
            affected@,
            decoded_op_count(d.code_bytes(), d.address()),
        ),
{
    let mut regs = affected.clone();
    let n = instr_op_count(d);
    let mut op: u32 = 0;
    while op < n
        invariant
            op <= n,
            n == decoded_op_count(d.code_bytes(), d.address()),
            n <= 5,
            regs@ == spec_operand_registers(d.code_bytes(), d.address(), affected@, op as nat),
        decreases n - op,
    {
        match instr_op_kind(d, op) {
            OperandKind::Memory => {
                push_register(&mut regs, instr_memory_base(d));
                push_register(&mut regs, instr_memory_index(d));
            },
            OperandKind::Register => {
                push_register(&mut regs, instr_op_register(d, op));
            },
            OperandKind::Other => {},
        }
        op = op + 1;
    }
    regs
}

/// Every entry is a register, and none is listed twice.
pub open spec fn distinct_registers(regs: Seq<u8>) -> bool {
    &&& forall|i: int| 0 <= i < regs.len() ==> #[trigger] regs[i] != REG_NONE
    &&& forall|i: int, j: int| 0 <= i < j < regs.len() ==> #[trigger] regs[i] != #[trigger] regs[j]
}

proof fn lemma_add_register(regs: Seq<u8>, r: u8)
    requires
        distinct_registers(regs),
    ensures
        distinct_registers(add_register(regs, r)),
        regs.is_prefix_of(add_register(regs, r)),
        r != REG_NONE ==> add_register(regs, r).contains(r),
{
    let res = add_register(regs, r);
    if r != REG_NONE && !regs.contains(r) {
        assert forall|i: int, j: int| 0 <= i < j < res.len() implies #[trigger] res[i] != #[trigger] res[j] by {
            if j == regs.len() {
                assert(res[i] == regs[i]);
                if regs[i] == r {
                    assert(regs.contains(r));
                }
            } else {
                assert(res[i] == regs[i] && res[j] == regs[j]);
            }
        }
        assert(res[regs.len() as int] == r);
    }
    assert(regs.is_prefix_of(res));
}

/// The registers shown beside an instruction are each listed once and
/// start with those the previous instruction wrote; every register that an
/// operand names is among them.
pub proof fn lemma_operand_registers(bytes: Seq<u8>, ip: u64, regs: Seq<u8>, k: nat)
    requires
        distinct_registers(regs),
    ensures
        distinct_registers(spec_operand_registers(bytes, ip, regs, k)),
        regs.is_prefix_of(spec_operand_registers(bytes, ip, regs, k)),
        forall|op: nat|
            op < k && decoded_op_kind(bytes, ip, op) == OperandKind::Register
                && decoded_op_register(bytes, ip, op) != REG_NONE
                ==> spec_operand_registers(bytes, ip, regs, k).contains(
                #[trigger] decoded_op_register(bytes, ip, op),
            ),
        (exists|op: nat| op < k && decoded_op_kind(bytes, ip, op) == OperandKind::Memory) ==> {
            &&& (decoded_memory_base(bytes, ip) != REG_NONE ==> spec_operand_registers(bytes, ip, regs, k).contains(decoded_memory_base(bytes, ip)))
            &&& (decoded_memory_index(bytes, ip) != REG_NONE ==> spec_operand_registers(bytes, ip, regs, k).contains(decoded_memory_index(bytes, ip)))
        },
    decreases k,
{
    if k > 0 {
        let km = (k - 1) as nat;
        lemma_operand_registers(bytes, ip, regs, km);
        let prev = spec_operand_registers(bytes, ip, regs, km);
        let cur = spec_operand_registers(bytes, ip, regs, k);
        let base = decoded_memory_base(bytes, ip);
        let index = decoded_memory_index(bytes, ip);
        match decoded_op_kind(bytes, ip, km) {
            OperandKind::Memory => {
                lemma_add_register(prev, base);
                lemma_add_register(add_register(prev, base), index);
            },
            OperandKind::Register => {
                lemma_add_register(prev, decoded_op_register(bytes, ip, km));
            },
            OperandKind::Other => {},
        }
        assert(prev.is_prefix_of(cur));
        assert forall|x: u8| prev.contains(x) implies cur.contains(x) by {
            let i = choose|i: int| 0 <= i < prev.len() && prev[i] == x;
            assert(cur[i] == x);
        }
        assert(regs.is_prefix_of(cur)) by {
            assert forall|i: int| 0 <= i < regs.len() implies regs[i] == cur[i] by {
                assert(regs[i] == prev[i]);
                assert(prev[i] == cur[i]);
            }
        }
        if exists|op: nat| op < k && decoded_op_kind(bytes, ip, op) == OperandKind::Memory {
            if !(exists|op: nat| op < km && decoded_op_kind(bytes, ip, op) == OperandKind::Memory) {
                let op = choose|op: nat| op < k && decoded_op_kind(bytes, ip, op) == OperandKind::Memory;
                assert(op == km);
                assert(add_register(prev, base).is_prefix_of(cur));
                if base != REG_NONE {
                    let i = choose|i: int| 0 <= i < add_register(prev, base).len() && add_register(prev, base)[i] == base;
                    assert(cur[i] == base);
                }
            }
        }
    }
}

/// Where one memory operand points, given the address `ptr` worked out so
/// far: the displacement alone when it is relative to the instruction
/// pointer (the decoder already made it absolute); otherwise `ptr` (or the
/// thread environment block `teb` under a `gs` prefix) plus the base, the
/// scaled index and the displacement. The arithmetic wraps at 2^64 as the
/// processor's does.
pub open spec fn spec_memory_step(
    bytes: Seq<u8>,
    ip: u64,
    ptr: u64,
    teb: u64,
    base_value: u64,
    index_value: u64,
) -> u64 {
    let base = decoded_memory_base(bytes, ip);
    let index = decoded_memory_index(bytes, ip);
    if base == REG_RIP || base == REG_EIP {
        decoded_memory_displacement(bytes, ip)
    } else {
        let p0 = if decoded_segment_prefix(bytes, ip) == REG_GS { teb } else { ptr };
        let p1 = if base != REG_NONE { vstd::wrapping::u64_specs::wrapping_add(p0, base_value) } else { p0 };
        let p2 = if index != REG_NONE {
            vstd::wrapping::u64_specs::wrapping_add(
                p1,
                vstd::wrapping::u64_specs::wrapping_mul(
                    index_value,
                    decoded_memory_index_scale(bytes, ip) as u64,
                ),
            )
        } else {
            p1
        };
        vstd::wrapping::u64_specs::wrapping_add(p2, decoded_memory_displacement(bytes, ip))
    }
}

/// The address the memory operands among the first `k` operands refer to
/// (0 when there is none).
pub open spec fn spec_memory_reference(
    bytes: Seq<u8>,
    ip: u64,
    teb: u64,
    base_value: u64,
    index_value: u64,
    k: nat,
) -> u64
    decreases k,
{
    if k == 0 {
        0
    } else {
        let prev = spec_memory_reference(bytes, ip, teb, base_value, index_value, (k - 1) as nat);
        if decoded_op_kind(bytes, ip, (k - 1) as nat) == OperandKind::Memory {
            spec_memory_step(bytes, ip, prev, teb, base_value, index_value)
        } else {
            prev
        }
    }
}

/// The address an instruction's memory operand refers to, given the value
/// of its base and index registers and the thread environment block; 0 when
/// it has no memory operand. Values of registers the operand does not use
/// are ignored.
pub fn memory_reference(d: &Decoded, teb: u64, base_value: u64, index_value: u64) -> (res: u64)
    ensures
        res == spec_memory_reference(
            d.code_bytes(),
            d.address(),
            teb,
            base_value,
            index_value,
            decoded_op_count(d.code_bytes(), d.address()),
        ),
{
    let n = instr_op_count(d);
    let mut ptr: u64 = 0;
    let mut op: u32 = 0;
    while op < n
        invariant
            op <= n,
            n == decoded_op_count(d.code_bytes(), d.address()),
            n <= 5,
            ptr == spec_memory_reference(
                d.code_bytes(),
                d.address(),
                teb,
                base_value,
                index_value,
                op as nat,
            ),
        decreases n - op,
    {
        if instr_op_kind(d, op) == OperandKind::Memory {
            if is_ip_rel_memory_operand(d) {
                ptr = instr_memory_displacement(d);
            } else {
                if instr_segment_prefix(d) == REG_GS {
                    ptr = teb;
                }
                let base = instr_memory_base(d);
                if base != REG_NONE {
                    ptr = ptr.wrapping_add(base_value);
                }
                let index = instr_memory_index(d);
                if index != REG_NONE {
                    let scale = instr_memory_index_scale(d);
                    ptr = ptr.wrapping_add(index_value.wrapping_mul(scale as u64));
                }
                ptr = ptr.wrapping_add(instr_memory_displacement(d));
            }
        }
        op = op + 1;
    }
    ptr
}

/// Adding two 64-bit values with wrap-around is addition modulo 2^64.
proof fn lemma_wrapping_add_mod(x: u64, y: u64)
    ensures
        vstd::wrapping::u64_specs::wrapping_add(x, y) as int == (x as int + y as int) % 0x1_0000_0000_0000_0000,
{
    let m: int = 0x1_0000_0000_0000_0000;
    let t: int = x as int + y as int;
    if t > u64::MAX {
        vstd::arithmetic::div_mod::lemma_fundamental_div_mod_converse(t, m, 1, t - m);
    } else {
        vstd::arithmetic::div_mod::lemma_fundamental_div_mod_converse(t, m, 0, t);
    }
}

/// Multiplying two 64-bit values with wrap-around is multiplication modulo
/// 2^64.
proof fn lemma_wrapping_mul_mod(x: u64, y: u64)
    ensures
        vstd::wrapping::u64_specs::wrapping_mul(x, y) as int == (x as int * y as int) % 0x1_0000_0000_0000_0000,
{
    let m: int = 0x1_0000_0000_0000_0000;
    assert(x as nat * y as nat >= 0) by (nonlinear_arith);
    vstd::arithmetic::div_mod::lemma_mod_pos_bound(x as int * y as int, m);
}

/// Before the memory operand, no address has been worked out.
proof fn lemma_reference_before(bytes: Seq<u8>, ip: u64, teb: u64, b: u64, x: u64, j: nat, k: nat)
    requires
        k <= j,
        forall|o: nat| o < j ==> decoded_op_kind(bytes, ip, o) != OperandKind::Memory,
    ensures
        spec_memory_reference(bytes, ip, teb, b, x, k) == 0,
    decreases k,
{
    if k > 0 {
        lemma_reference_before(bytes, ip, teb, b, x, j, (k - 1) as nat);
    }
}

/// After the memory operand, the address stays what it worked out to.
proof fn lemma_reference_after(bytes: Seq<u8>, ip: u64, teb: u64, b: u64, x: u64, j: nat, k: nat)
    requires
        j < k,
        forall|o: nat| j < o && o < k ==> decoded_op_kind(bytes, ip, o) != OperandKind::Memory,
    ensures
        spec_memory_reference(bytes, ip, teb, b, x, k) == spec_memory_reference(bytes, ip, teb, b, x, j + 1),
    decreases k,
{
    if k > j + 1 {
        lemma_reference_after(bytes, ip, teb, b, x, j, (k - 1) as nat);
    }
}

/// The address the memory operand of an instruction refers to (the
/// instruction having one, at operand `j`): the absolute displacement when
/// it is relative to the instruction pointer; otherwise the base value
/// (when there is a base register), plus the index value times the decoded
/// scale (when there is an index register), plus the displacement, all
/// modulo 2^64, starting from the thread environment block under a `gs`
/// prefix. With no memory operand the reference is 0.
pub proof fn lemma_memory_reference_value(
    bytes: Seq<u8>,
    ip: u64,
    teb: u64,
    base_value: u64,
    index_value: u64,
    j: nat,
)
    ensures
        (forall|o: nat| o < decoded_op_count(bytes, ip) ==> decoded_op_kind(bytes, ip, o) != OperandKind::Memory)
            ==> spec_memory_reference(bytes, ip, teb, base_value, index_value, decoded_op_count(bytes, ip)) == 0,
        ({
            let n = decoded_op_count(bytes, ip);
            let r = spec_memory_reference(bytes, ip, teb, base_value, index_value, n) as int;
            let base = decoded_memory_base(bytes, ip);
            let index = decoded_memory_index(bytes, ip);
            let b: int = if base != REG_NONE { base_value as int } else { 0 };
            let x: int = if index != REG_NONE {
                index_value as int * decoded_memory_index_scale(bytes, ip) as int
            } else {
                0
            };
            let d = decoded_memory_displacement(bytes, ip) as int;
            let start: int = if decoded_segment_prefix(bytes, ip) == REG_GS { teb as int } else { 0 };
            (j < n && decoded_op_kind(bytes, ip, j) == OperandKind::Memory && forall|o: nat|
                o < n && o != j ==> decoded_op_kind(bytes, ip, o) != OperandKind::Memory) ==> {
                &&& (base == REG_RIP || base == REG_EIP) ==> r == d
                &&& (base != REG_RIP && base != REG_EIP) ==> r == (start + b + x + d)
                    % 0x1_0000_0000_0000_0000
            }
        }),
{
    let n = decoded_op_count(bytes, ip);
    let m: int = 0x1_0000_0000_0000_0000;
    if forall|o: nat| o < n ==> decoded_op_kind(bytes, ip, o) != OperandKind::Memory {
        lemma_reference_before(bytes, ip, teb, base_value, index_value, n, n);
    }
    if j < n && decoded_op_kind(bytes, ip, j) == OperandKind::Memory && forall|o: nat|
        o < n && o != j ==> decoded_op_kind(bytes, ip, o) != OperandKind::Memory {
        lemma_reference_before(bytes, ip, teb, base_value, index_value, j, j);
        lemma_reference_after(bytes, ip, teb, base_value, index_value, j, n);
        let base = decoded_memory_base(bytes, ip);
        let index = decoded_memory_index(bytes, ip);
        let scale = decoded_memory_index_scale(bytes, ip);
        let d = decoded_memory_displacement(bytes, ip);
        let r = spec_memory_reference(bytes, ip, teb, base_value, index_value, n);
        assert(r == spec_memory_step(bytes, ip, 0, teb, base_value, index_value));
        if base != REG_RIP && base != REG_EIP {
            let p0: u64 = if decoded_segment_prefix(bytes, ip) == REG_GS { teb } else { 0 };
            let p1 = if base != REG_NONE { vstd::wrapping::u64_specs::wrapping_add(p0, base_value) } else { p0 };
            let prod = vstd::wrapping::u64_specs::wrapping_mul(index_value, scale as u64);
            let p2 = if index != REG_NONE { vstd::wrapping::u64_specs::wrapping_add(p1, prod) } else { p1 };
            let b: int = if base != REG_NONE { base_value as int } else { 0 };
            let x: int = if index != REG_NONE { index_value as int * scale as int } else { 0 };
            lemma_wrapping_add_mod(p0, base_value);
            lemma_wrapping_mul_mod(index_value, scale as u64);
            lemma_wrapping_add_mod(p1, prod);
            lemma_wrapping_add_mod(p2, d);
            vstd::arithmetic::div_mod::lemma_small_mod(p0 as nat, m as nat);
            // p1 == (p0 + b) % m
            assert(p1 as int == (p0 as int + b) % m);
            // p2 == (p0 + b + x) % m
            vstd::arithmetic::div_mod::lemma_add_mod_noop(p0 as int + b, x, m);
            vstd::arithmetic::div_mod::lemma_mod_twice(p0 as int + b, m);
            vstd::arithmetic::div_mod::lemma_mod_twice(x, m);
            if index != REG_NONE {
                assert(prod as int == x % m);
                assert(p2 as int == ((p0 as int + b) % m + x % m) % m);
            } else {
                vstd::arithmetic::div_mod::lemma_small_mod(p1 as nat, m as nat);
                assert(x == 0);
            }
            assert(p2 as int == (p0 as int + b + x) % m);
            // r == (p0 + b + x + d) % m
            vstd::arithmetic::div_mod::lemma_add_mod_noop(p0 as int + b + x, d as int, m);
            vstd::arithmetic::div_mod::lemma_mod_twice(p0 as int + b + x, m);
            vstd::arithmetic::div_mod::lemma_small_mod(d as nat, m as nat);
            assert(r as int == (p0 as int + b + x + d as int) % m);
        }
    }
}

/// Whether working out the memory reference needs the thread environment
/// block: a memory operand that is not relative to the instruction pointer
/// has a `gs` prefix.
pub open spec fn spec_needs_teb(bytes: Seq<u8>, ip: u64) -> bool {
    &&& exists|k: nat| k < decoded_op_count(bytes, ip) && decoded_op_kind(bytes, ip, k) == OperandKind::Memory
    &&& decoded_memory_base(bytes, ip) != REG_RIP
    &&& decoded_memory_base(bytes, ip) != REG_EIP
    &&& decoded_segment_prefix(bytes, ip) == REG_GS
}

/// The registers whose values `memory_reference` uses, as `(base, index)`;
/// `REG_NONE` where no value is needed, both when no memory operand is
/// present or it is relative to the instruction pointer.
pub open spec fn spec_memory_registers(bytes: Seq<u8>, ip: u64) -> (u8, u8) {
    if (exists|k: nat| k < decoded_op_count(bytes, ip) && decoded_op_kind(bytes, ip, k) == OperandKind::Memory)
        && decoded_memory_base(bytes, ip) != REG_RIP && decoded_memory_base(bytes, ip) != REG_EIP {
        (decoded_memory_base(bytes, ip), decoded_memory_index(bytes, ip))
    } else {
        (REG_NONE, REG_NONE)
    }
}

/// The registers an instruction's memory reference reads, and whether it
/// reads the thread environment block.
pub fn memory_inputs(d: &Decoded) -> (res: (u8, u8, bool))
    ensures
        (res.0, res.1) == spec_memory_registers(d.code_bytes(), d.address()),
        res.2 == spec_needs_teb(d.code_bytes(), d.address()),
{
    let n = instr_op_count(d);
    let mut has_memory = false;
    let mut op: u32 = 0;
    while op < n
        invariant
            op <= n,
            n == decoded_op_count(d.code_bytes(), d.address()),
            n <= 5,
            has_memory == exists|k: nat| k < op && decoded_op_kind(d.code_bytes(), d.address(), k) == OperandKind::Memory,
        decreases n - op,
    {
        if instr_op_kind(d, op) == OperandKind::Memory {
            has_memory = true;
        }
        proof {
            if !has_memory {
                assert forall|k: nat| k < op + 1 implies decoded_op_kind(d.code_bytes(), d.address(), k) != OperandKind::Memory by {
                    if k < op {
                    }
                }
            }
        }
        op = op + 1;
    }
    if has_memory && !is_ip_rel_memory_operand(d) {
        (instr_memory_base(d), instr_memory_index(d), instr_segment_prefix(d) == REG_GS)
    } else {
        (REG_NONE, REG_NONE, false)
    }
}

/// The registers that an instruction leaves for the next one to show: its
/// first operand's register, if any.
pub fn next_affected_registers(d: &Decoded) -> (res: Vec<u8>)
    ensures
        res@ == add_register(Seq::empty(), decoded_op0_register(d.code_bytes(), d.address())),
{
    let mut v: Vec<u8> = Vec::new();
    let r = instr_op0_register(d);
    if r != REG_NONE {
        v.push(r);
    }
    proof {
        assert(!Seq::<u8>::empty().contains(r));
    }
    v
}

/// Longest x86 instruction, in bytes: how much code is read for each step.
pub const ONE_INSTRUCTION_MAX_SIZE: usize = 15;

/// The range of addresses to emulate for one instruction decoded at `ip`:
/// from `ip` to just past it. `None` when nothing could be decoded, which
/// ends the emulation.
pub fn emulation_range(d: &Decoded, ip: usize) -> (res: Option<(u64, u64)>)
    requires
        ip + decoded_len(d.code_bytes(), d.address()) <= usize::MAX,
    ensures
        decoded_len(d.code_bytes(), d.address()) == 0 ==> res is None,
        decoded_len(d.code_bytes(), d.address()) != 0 ==> res == Some(
            (ip as u64, (ip + decoded_len(d.code_bytes(), d.address())) as u64),
        ),
{
    let len = instr_len(d);
    if len == 0 {
        return None;
    }
    Some((ip as u64, (ip + len) as u64))
}

/// Why the emulation cannot go on with an instruction.
#[derive(Debug, Clone, Copy, PartialEq, Eq, Structural)]
pub enum EmulationStop {
    /// Nothing could be decoded at the instruction pointer.
    Undecodable,
    /// The end of the instruction lies past the last address.
    AddressOverflow,
}

/// One step of the emulation: the range to run for the instruction decoded
/// at `ip`, or why there is none.
pub fn emulation_step(d: &Decoded, ip: usize) -> (res: Result<(u64, u64), EmulationStop>)
    ensures
        ip + decoded_len(d.code_bytes(), d.address()) > usize::MAX ==> res == Err::<(u64, u64), EmulationStop>(
            EmulationStop::AddressOverflow,
        ),
        ip + decoded_len(d.code_bytes(), d.address()) <= usize::MAX && decoded_len(d.code_bytes(), d.address()) == 0
            ==> res == Err::<(u64, u64), EmulationStop>(EmulationStop::Undecodable),
        ip + decoded_len(d.code_bytes(), d.address()) <= usize::MAX && decoded_len(d.code_bytes(), d.address()) != 0
            ==> res == Ok::<(u64, u64), EmulationStop>(
            (ip as u64, (ip + decoded_len(d.code_bytes(), d.address())) as u64),
        ),
{
    let len = instr_len(d);
    if len > usize::MAX - ip {
        return Err(EmulationStop::AddressOverflow);
    }
    match emulation_range(d, ip) {
        Some(range) => Ok(range),
        None => Err(EmulationStop::Undecodable),
    }
}

/// What the emulation does next: run the instruction at an address, end
/// normally (the emulator's hook is then removed), or give up after a
/// failure (already logged).
#[derive(Debug, Clone, Copy, PartialEq, Eq, Structural)]
pub enum EmulationNext {
    Run(usize),
    Done,
    Abort,
}

/// The first step of emulating `count` instructions from `addr`.
pub fn emulation_first(addr: usize, count: usize) -> (res: EmulationNext)
    ensures
        res == (if count == 0 { EmulationNext::Done } else { EmulationNext::Run(addr) }),
{
    if count == 0 {
        EmulationNext::Done
    } else {
        EmulationNext::Run(addr)
    }
}

/// The step after an instruction, given how many were run before it, how
/// many are to run, and how it went: `None` when reading its bytes,
/// decoding, emulating it or reading the instruction pointer afterwards
/// failed, else the instruction pointer the emulator holds. The emulation
/// goes on at that address while fewer than `count` instructions have run.
pub fn emulation_next(emulated: usize, count: usize, outcome: Option<u64>) -> (res: EmulationNext)
    ensures
        res == (match outcome {
            None => EmulationNext::Abort,
            Some(rip) => if emulated + 1 < count {
                EmulationNext::Run(rip as usize)
            } else {
                EmulationNext::Done
            },
        }),
{
    match outcome {
        None => EmulationNext::Abort,
        Some(rip) => {
            if emulated < count && count - emulated > 1 {
                EmulationNext::Run(rip as usize)
            } else {
                EmulationNext::Done
            }
        },
    }
}

/// The register writes that give the emulator the debuggee's registers, in
/// order. `rip` is written into `R15` (after `r15` itself), so the emulator's
/// `R15` holds the instruction pointer.
pub open spec fn spec_fill_regs(ctx: RegisterContext) -> Seq<(UnicornReg, u64)> {
    seq![
        (UnicornReg::RAX, ctx.cax), (UnicornReg::RCX, ctx.ccx), (UnicornReg::RDX, ctx.cdx),
        (UnicornReg::RBX, ctx.cbx), (UnicornReg::RSP, ctx.csp), (UnicornReg::RBP, ctx.cbp),
        (UnicornReg::RSI, ctx.csi), (UnicornReg::RDI, ctx.cdi), (UnicornReg::R8, ctx.r8),
        (UnicornReg::R9, ctx.r9), (UnicornReg::R10, ctx.r10), (UnicornReg::R11, ctx.r11),
        (UnicornReg::R12, ctx.r12), (UnicornReg::R13, ctx.r13), (UnicornReg::R14, ctx.r14),
        (UnicornReg::R15, ctx.r15), (UnicornReg::R15, ctx.cip), (UnicornReg::EFLAGS, ctx.eflags),
    ]
}

/// The register writes that load the debuggee's registers into the emulator.
pub fn fill_regs(ctx: &RegisterContext) -> (res: Vec<(UnicornReg, u64)>)
    ensures
        res@ == spec_fill_regs(*ctx),
{
    let mut v: Vec<(UnicornReg, u64)> = Vec::new();
    v.push((UnicornReg::RAX, ctx.cax));
    v.push((UnicornReg::RCX, ctx.ccx));
    v.push((UnicornReg::RDX, ctx.cdx));
    v.push((UnicornReg::RBX, ctx.cbx));
    v.push((UnicornReg::RSP, ctx.csp));
    v.push((UnicornReg::RBP, ctx.cbp));
    v.push((UnicornReg::RSI, ctx.csi));
    v.push((UnicornReg::RDI, ctx.cdi));
    v.push((UnicornReg::R8, ctx.r8));
    v.push((UnicornReg::R9, ctx.r9));
    v.push((UnicornReg::R10, ctx.r10));
    v.push((UnicornReg::R11, ctx.r11));
    v.push((UnicornReg::R12, ctx.r12));
    v.push((UnicornReg::R13, ctx.r13));
    v.push((UnicornReg::R14, ctx.r14));
    v.push((UnicornReg::R15, ctx.r15));
    v.push((UnicornReg::R15, ctx.cip));
    v.push((UnicornReg::EFLAGS, ctx.eflags));
    assert(v@ =~= spec_fill_regs(*ctx));
    v
}

/// The debuggee's value of an emulator register, for the registers that
/// the register context holds under the same name.
pub open spec fn spec_context_value(ctx: RegisterContext, r: UnicornReg) -> Option<u64> {
    match r {
        UnicornReg::RAX => Some(ctx.cax),
        UnicornReg::RCX => Some(ctx.ccx),
        UnicornReg::RDX => Some(ctx.cdx),
        UnicornReg::RBX => Some(ctx.cbx),
        UnicornReg::RSP => Some(ctx.csp),
        UnicornReg::RBP => Some(ctx.cbp),
        UnicornReg::RSI => Some(ctx.csi),
        UnicornReg::RDI => Some(ctx.cdi),
        UnicornReg::R8 => Some(ctx.r8),
        UnicornReg::R9 => Some(ctx.r9),
        UnicornReg::R10 => Some(ctx.r10),
        UnicornReg::R11 => Some(ctx.r11),
        UnicornReg::R12 => Some(ctx.r12),
        UnicornReg::R13 => Some(ctx.r13),
        UnicornReg::R14 => Some(ctx.r14),
        UnicornReg::R15 => Some(ctx.r15),
        UnicornReg::EFLAGS => Some(ctx.eflags),
        _ => None,
    }
}

/// The emulator gets each register of the context, each once and with the
/// debuggee's value of that same register; then the instruction pointer
/// goes into `R15` and the flags into `EFLAGS`.
pub proof fn lemma_fill_regs_values(ctx: RegisterContext)
    ensures
        spec_fill_regs(ctx).len() == 18,
        forall|k: int| 0 <= k < 16 ==> spec_context_value(ctx, (#[trigger] spec_fill_regs(ctx)[k]).0) == Some(
            spec_fill_regs(ctx)[k].1,
        ),
        forall|j: int, k: int| 0 <= j < k < 16 ==> (#[trigger] spec_fill_regs(ctx)[j]).0 != (
        #[trigger] spec_fill_regs(ctx)[k]).0,
        spec_fill_regs(ctx)[16] == (UnicornReg::R15, ctx.cip),
        spec_fill_regs(ctx)[17].0 == UnicornReg::EFLAGS,
        spec_context_value(ctx, spec_fill_regs(ctx)[17].0) == Some(spec_fill_regs(ctx)[17].1),
{
}

/// `name: value` for one register, the value in lower-case hexadecimal.
pub open spec fn spec_register_item(r: u8, v: u64) -> Seq<char> {
    register_debug_name(r) + ": "@ + spec_hex(v as nat, 0, false)
}

/// The registers with their values, separated by `, `.
pub open spec fn spec_register_list(regs: Seq<u8>, values: Seq<u64>) -> Seq<char>
    decreases regs.len(),
{
    if regs.len() == 0 {
        Seq::empty()
    } else if regs.len() == 1 {
        spec_register_item(regs[0], values[0])
    } else {
        spec_register_list(regs.drop_last(), values.drop_last()) + ", "@ + spec_register_item(
            regs.last(),
            values.last(),
        )
    }
}

/// Each item of the register list is the register's name, `: ` and its
/// value written in lower-case hexadecimal digits that denote the full
/// 64-bit value: parsing them as a hexadecimal number gives the value back.
pub proof fn lemma_register_item_value(r: u8, v: u64)
    ensures
        ({
            let name = register_debug_name(r);
            let item = spec_register_item(r, v);
            let digits = item.skip(name.len() + 2 as int);
            &&& item.len() > name.len() + 2
            &&& item.take(name.len() + 2 as int) == name + ": "@
            &&& all_hex(digits)
            &&& forall|i: int| 0 <= i < digits.len() ==> !('A' <= #[trigger] digits[i] && digits[i] <= 'F')
            &&& hex_value(digits) == v
            &&& v <= usize::MAX ==> spec_from_hex(digits) == Ok::<usize, HexError>(v as usize)
        }),
{
    reveal_strlit(": ");
    let name = register_debug_name(r);
    let ds = radix_digits(v as nat, 16, false);
    let item = spec_register_item(r, v);
    assert(spec_hex(v as nat, 0, false) == ds);
    assert(item == name + ": "@ + ds);
    assert(item.skip(name.len() + 2 as int) =~= ds);
    assert(item.take(name.len() + 2 as int) =~= name + ": "@);
    lemma_radix16_digits(v as nat, false);
    lemma_radix_lower(v as nat);
    if v <= usize::MAX {
        lemma_hex_round_trip(v, 0, false);
    }
}

/// Digits written in lower case hold no upper-case letter.
proof fn lemma_radix_lower(v: nat)
    ensures
        forall|i: int| 0 <= i < radix_digits(v, 16, false).len() ==> !('A' <= #[trigger] radix_digits(
            v,
            16,
            false,
        )[i] && radix_digits(v, 16, false)[i] <= 'F'),
    decreases v,
{
    if v >= 16 {
        lemma_quotient_smaller(v, 16);
        lemma_radix_lower(v / 16);
        let prev = radix_digits(v / 16, 16, false);
        assert forall|i: int| 0 <= i < radix_digits(v, 16, false).len() implies !('A' <= #[trigger] radix_digits(
            v,
            16,
            false,
        )[i] && radix_digits(v, 16, false)[i] <= 'F') by {
            if i < prev.len() {
                assert(radix_digits(v, 16, false)[i] == prev[i]);
            }
        }
    }
}

/// The register list is its items, in the order of the registers, joined
/// with `, `.
pub proof fn lemma_register_list_items(regs: Seq<u8>, values: Seq<u64>)
    requires
        regs.len() == values.len(),
    ensures
        spec_register_list(regs, values) == spec_join(
            Seq::new(regs.len(), |i: int| spec_register_item(regs[i], values[i])),
            ", "@,
        ),
    decreases regs.len(),
{
    let items = Seq::new(regs.len(), |i: int| spec_register_item(regs[i], values[i]));
    if regs.len() > 1 {
        lemma_register_list_items(regs.drop_last(), values.drop_last());
        let prev = Seq::new(
            regs.drop_last().len(),
            |i: int| spec_register_item(regs.drop_last()[i], values.drop_last()[i]),
        );
        assert(items.drop_last() =~= prev);
    } else if regs.len() == 1 {
        assert(items[0] == spec_register_item(regs[0], values[0]));
    } else {
        assert(items.len() == 0);
    }
}

/// Lists registers with their values (`values[i]` is the value of `regs[i]`).
pub fn register_list(regs: &Vec<u8>, values: &Vec<u64>) -> (res: String)
    requires
        regs@.len() == values@.len(),
    ensures
        res@ == spec_register_list(regs@, values@),
{
    let mut s = String::new();
    let mut i: usize = 0;
    while i < regs.len()
        invariant
            i <= regs@.len(),
            regs@.len() == values@.len(),
            s@ == spec_register_list(regs@.take(i as int), values@.take(i as int)),
        decreases regs.len() - i,
    {
        if i > 0 {
            s.append(", ");
        }
        let name = register_name(regs[i]);
        s.append(name.as_str());
        s.append(": ");
        let v = format_hex(values[i], 0, false);
        s.append(v.as_str());
        proof {
            let r = regs@.take(i + 1);
            let w = values@.take(i + 1);
            assert(r.drop_last() =~= regs@.take(i as int));
            assert(w.drop_last() =~= values@.take(i as int));
            assert(r.last() == regs@[i as int]);
            assert(w.last() == values@[i as int]);
            if i == 0 {
                assert(r.len() == 1);
                assert(r[0] == regs@[0]);
                assert(w[0] == values@[0]);
            }
        }
        i = i + 1;
    }
    assert(regs@.take(i as int) =~= regs@);
    assert(values@.take(i as int) =~= values@);
    s
}

/// The log line for one emulated instruction: its address (linked to the
/// disassembly view) in colour 1, the label of the address right-aligned in
/// 40 characters in colour 1, the instruction left-aligned in 30 characters
/// in colour 2, the telescope of the address it refers to, and the
/// registers with their values in colour 4.
pub open spec fn spec_instruction_line(
    ip: u64,
    label: Seq<char>,
    text: Seq<char>,
    telescope: Seq<char>,
    registers: Seq<char>,
    palette: Palette,
) -> Seq<char> {
    spec_a(
        spec_hex(ip as nat, 16, true),
        palette.spec_color(1),
        "x64dbg://localhost/address64#"@ + spec_hex(ip as nat, 16, false),
    ) + " "@ + spec_a(pad_front(label, 40, ' '), palette.spec_color(1), ""@) + " "@ + spec_a(
        pad_back(text, 30),
        palette.spec_color(2),
        ""@,
    ) + " "@ + telescope + " "@ + spec_a(registers, palette.spec_color(4), ""@) + "<br>"@
}

/// Formats the log line of an emulated instruction, given the label of its
/// address, the telescope of the address it refers to and its registers
/// with their values.
fn instruction_line(
    d: &Decoded,
    label: &str,
    telescope: &str,
    registers: &str,
    palette: &Palette,
) -> (res: String)
    requires
        palette.wf(),
    ensures
        res@ == spec_instruction_line(
            decoded_ip(d.code_bytes(), d.address()),
            label@,
            intel_text(d.code_bytes(), d.address()),
            telescope@,
            registers@,
            *palette,
        ),
{
    let ip = instr_ip(d);
    let upper = format_hex(ip, 16, true);
    let lower = format_hex(ip, 16, false);
    let mut href = String::from_str("x64dbg://localhost/address64#");
    href.append(lower.as_str());
    let mut line = a(upper.as_str(), palette.get_color(1), href.as_str());
    line.append(" ");
    let label_text = align_right(label, 40);
    let label_link = a(label_text.as_str(), palette.get_color(1), "");
    line.append(label_link.as_str());
    line.append(" ");
    let text = format_instr(d);
    let text_padded = align_left(text.as_str(), 30);
    let text_link = a(text_padded.as_str(), palette.get_color(2), "");
    line.append(text_link.as_str());
    line.append(" ");
    line.append(telescope);
    line.append(" ");
    let regs_link = a(registers, palette.get_color(4), "");
    line.append(regs_link.as_str());
    line.append("<br>");
    line
}

/// Where the telescope beside an instruction starts: the address its
/// memory operand refers to, unless that is 0 (no memory operand, or one
/// that works out to 0), in which case no telescope is shown.
pub open spec fn spec_telescope_target(bytes: Seq<u8>, ip: u64, teb: u64, base_value: u64, index_value: u64) -> Option<usize> {
    let r = spec_memory_reference(bytes, ip, teb, base_value, index_value, decoded_op_count(bytes, ip));
    if r != 0 {
        Some(r as usize)
    } else {
        None
    }
}

/// The address to telescope beside an instruction, given the values of the
/// registers and of the thread environment block that `memory_inputs` asks
/// for (see `spec_telescope_target`).
pub fn telescope_target(d: &Decoded, teb: u64, base_value: u64, index_value: u64) -> (res: Option<usize>)
    ensures
        res == spec_telescope_target(d.code_bytes(), d.address(), teb, base_value, index_value),
{
    let r = memory_reference(d, teb, base_value, index_value);
    if r != 0 {
        Some(r as usize)
    } else {
        None
    }
}

/// The telescope text beside an instruction: the telescope line of its
/// target three levels deep, or nothing.
pub open spec fn spec_instruction_telescope(
    bytes: Seq<u8>,
    ip: u64,
    teb: u64,
    base_value: u64,
    index_value: u64,
    chain: Seq<AddressInfo>,
    palette: Palette,
) -> Seq<char> {
    match spec_telescope_target(bytes, ip, teb, base_value, index_value) {
        Some(t) => spec_telescope_line(Seq::empty(), t, 3, chain, palette),
        None => Seq::empty(),
    }
}

/// Shows one emulated instruction and gives the registers to carry to the
/// next one.
///
/// The registers listed are `affected` (those the previous instruction
/// wrote) followed by those its operands use, each once
/// (`instruction_registers`); `values[i]` is the value the emulator holds
/// for the `i`-th of them. `teb`, `base_value` and `index_value` are the
/// values `memory_inputs` asks for; `chain` is what the debugger said
/// about the addresses on the way from the telescope target, if there is
/// one (see `telescope_target` and `telescope_next_query`); `label` names
/// the instruction's address. The line holds the address, the label, the
/// instruction, the telescope of the target and the registers with their
/// values. The registers carried to the next instruction are the
/// instruction's first operand register, if any, in place of `affected`.
pub fn print_instruction(
    d: &Decoded,
    affected: &Vec<u8>,
    values: &Vec<u64>,
    teb: u64,
    base_value: u64,
    index_value: u64,
    label: &str,
    chain: &Vec<AddressInfo>,
    palette: &Palette,
) -> (res: (String, Vec<u8>))
    requires
        palette.wf(),
        values@.len() == spec_operand_registers(
            d.code_bytes(),
            d.address(),
            affected@,
            decoded_op_count(d.code_bytes(), d.address()),
        ).len(),
    ensures
        res.0@ == spec_instruction_line(
            decoded_ip(d.code_bytes(), d.address()),
            label@,
            intel_text(d.code_bytes(), d.address()),
            spec_instruction_telescope(d.code_bytes(), d.address(), teb, base_value, index_value, chain@, *palette),
            spec_register_list(
                spec_operand_registers(
                    d.code_bytes(),
                    d.address(),
                    affected@,
                    decoded_op_count(d.code_bytes(), d.address()),
                ),
                values@,
            ),
            *palette,
        ),
        res.1@ == add_register(Seq::empty(), decoded_op0_register(d.code_bytes(), d.address())),
{
    let regs = instruction_registers(d, affected);
    let registers = register_list(&regs, values);
    let mut telescope = String::new();
    match telescope_target(d, teb, base_value, index_value) {
        Some(t) => {
            telescope_line(t, 3, chain, palette, &mut telescope);
        },
        None => {},
    }
    let line = instruction_line(d, label, telescope.as_str(), registers.as_str(), palette);
    (line, next_affected_registers(d))
}

/// `print_instruction` on values that may not fit the instruction: `None`
/// when `values` does not hold one value per listed register, otherwise
/// what `print_instruction` gives.
pub fn print_instruction_checked(
    d: &Decoded,
    affected: &Vec<u8>,
    values: &Vec<u64>,
    teb: u64,
    base_value: u64,
    index_value: u64,
    label: &str,
    chain: &Vec<AddressInfo>,
    palette: &Palette,
) -> (res: Option<(String, Vec<u8>)>)
    requires
        palette.wf(),
    ensures
        res is Some <==> (values@.len() == spec_operand_registers(
            d.code_bytes(),
            d.address(),
            affected@,
            decoded_op_count(d.code_bytes(), d.address()),
        ).len()),
        res matches Some(r) ==> r.0@ == spec_instruction_line(
            decoded_ip(d.code_bytes(), d.address()),
            label@,
            intel_text(d.code_bytes(), d.address()),
            spec_instruction_telescope(d.code_bytes(), d.address(), teb, base_value, index_value, chain@, *palette),
            spec_register_list(
                spec_operand_registers(
                    d.code_bytes(),
                    d.address(),
                    affected@,
                    decoded_op_count(d.code_bytes(), d.address()),
                ),
                values@,
            ),
            *palette,
        ),
        res matches Some(r) ==> r.1@ == add_register(
            Seq::empty(),
            decoded_op0_register(d.code_bytes(), d.address()),
        ),
{
    let regs = instruction_registers(d, affected);
    if values.len() != regs.len() {
        return None;
    }
    Some(print_instruction(d, affected, values, teb, base_value, index_value, label, chain, palette))
}

} // verus!
