//! Decoding and formatting of x86-64 instructions with `iced_x86`.
//!
//! A decoded instruction is kept together with the bytes and the address it
//! was decoded from; every fact that the decoder gives about it is named by a
//! function of those two values.
use vstd::prelude::*;
use iced_x86::{Decoder, DecoderOptions, Formatter, Instruction, IntelFormatter, OpKind, Register};

verus! {

#[verifier::external_type_specification]
#[verifier::external_body]
pub struct ExInstruction(Instruction);

/// What an operand of an instruction is, as far as this library looks at it.
#[derive(Debug, Clone, Copy, PartialEq, Eq, Structural)]
pub enum OperandKind {
    Register,
    Memory,
    Other,
}

/// Code of `Register::None`: no register.
pub const REG_NONE: u8 = 0;
/// Code of `Register::EIP`.
pub const REG_EIP: u8 = 69;
/// Code of `Register::RIP`.
pub const REG_RIP: u8 = 70;
/// Code of `Register::GS`.
pub const REG_GS: u8 = 76;

/// `Instruction::len` of what the decoder makes of `bytes` at `ip`.
pub uninterp spec fn decoded_len(bytes: Seq<u8>, ip: u64) -> nat;

/// `Instruction::ip` of the decoded instruction.
pub uninterp spec fn decoded_ip(bytes: Seq<u8>, ip: u64) -> u64;

/// `Instruction::op_count` of the decoded instruction.
pub uninterp spec fn decoded_op_count(bytes: Seq<u8>, ip: u64) -> nat;

/// `Instruction::op_kind(op)`, reduced to the kinds that this library tells apart.
pub uninterp spec fn decoded_op_kind(bytes: Seq<u8>, ip: u64, op: nat) -> OperandKind;

/// The code of `Instruction::op_register(op)`.
pub uninterp spec fn decoded_op_register(bytes: Seq<u8>, ip: u64, op: nat) -> u8;

/// The code of `Instruction::op0_register`.
pub uninterp spec fn decoded_op0_register(bytes: Seq<u8>, ip: u64) -> u8;

/// The code of `Instruction::memory_base`.
pub uninterp spec fn decoded_memory_base(bytes: Seq<u8>, ip: u64) -> u8;

/// The code of `Instruction::memory_index`.
pub uninterp spec fn decoded_memory_index(bytes: Seq<u8>, ip: u64) -> u8;

/// `Instruction::memory_index_scale`.
pub uninterp spec fn decoded_memory_index_scale(bytes: Seq<u8>, ip: u64) -> u32;

/// `Instruction::memory_displacement64`.
pub uninterp spec fn decoded_memory_displacement(bytes: Seq<u8>, ip: u64) -> u64;

/// The code of `Instruction::segment_prefix`.
pub uninterp spec fn decoded_segment_prefix(bytes: Seq<u8>, ip: u64) -> u8;

/// The text that `IntelFormatter` writes for the decoded instruction.
pub uninterp spec fn intel_text(bytes: Seq<u8>, ip: u64) -> Seq<char>;

/// The `Debug` text of the register with code `code` (such as `RAX`).
pub uninterp spec fn register_debug_name(code: u8) -> Seq<char>;

/// An instruction decoded in 64-bit mode, with the bytes and the address it
/// was decoded from.
pub struct Decoded {
    bytes: Vec<u8>,
    ip: u64,
    instr: Instruction,
}

impl Decoded {
    /// The bytes the instruction was decoded from.
    pub closed spec fn code_bytes(&self) -> Seq<u8> {
        self.bytes@
    }

    /// The address the instruction was decoded at.
    pub closed spec fn address(&self) -> u64 {
        self.ip
    }
}

/// Decodes the first instruction of `bytes` at address `addr` in 64-bit mode
/// (`Decoder::with_ip` then `decode_out`); when there is nothing to decode the
/// instruction is `Instruction::default()`. The result keeps `bytes` and
/// `addr`, which the named facts about it are functions of.
#[verifier::external_body]
pub fn decode_instr(bytes: &[u8], addr: u64) -> (res: Decoded)
    ensures
        res.code_bytes() == bytes@,
        res.address() == addr,
{
    let mut instr = Instruction::default();
    let mut decoder = Decoder::with_ip(64, bytes, addr, DecoderOptions::NONE);
    if decoder.can_decode() {
        decoder.decode_out(&mut instr);
    }
    Decoded { bytes: bytes.to_vec(), ip: addr, instr }
}

/// `Instruction::len`: the length in bytes, at most 15 and at most the number
/// of bytes given; 0 when `bytes` was empty (the default instruction).
#[verifier::external_body]
pub(crate) fn instr_len(d: &Decoded) -> (n: usize)
    ensures
        n == decoded_len(d.code_bytes(), d.address()),
        n <= 15,
        n <= d.code_bytes().len(),
        d.code_bytes().len() == 0 ==> n == 0,
{
    d.instr.len()
}

/// `Instruction::ip`: the address decoded at, when there were bytes to
/// decode.
#[verifier::external_body]
pub(crate) fn instr_ip(d: &Decoded) -> (ip: u64)
    ensures
        ip == decoded_ip(d.code_bytes(), d.address()),
        d.code_bytes().len() > 0 ==> ip == d.address(),
{
    d.instr.ip()
}

/// `Instruction::op_count`: at most 5 operands.
#[verifier::external_body]
pub(crate) fn instr_op_count(d: &Decoded) -> (n: u32)
    ensures
        n == decoded_op_count(d.code_bytes(), d.address()),
        n <= 5,
{
    d.instr.op_count()
}

/// `Instruction::op_kind(op)` for operand `op` (0 to 4).
#[verifier::external_body]
pub(crate) fn instr_op_kind(d: &Decoded, op: u32) -> (k: OperandKind)
    requires
        op < 5,
    ensures
        k == decoded_op_kind(d.code_bytes(), d.address(), op as nat),
{
    match d.instr.op_kind(op) {
        OpKind::Register => OperandKind::Register,
        OpKind::Memory => OperandKind::Memory,
        _ => OperandKind::Other,
    }
}

/// The code of `Instruction::op_register(op)` for operand `op` (0 to 4).
#[verifier::external_body]
pub(crate) fn instr_op_register(d: &Decoded, op: u32) -> (r: u8)
    requires
        op < 5,
    ensures
        r == decoded_op_register(d.code_bytes(), d.address(), op as nat),
{
    d.instr.op_register(op) as u8
}

/// The code of `Instruction::op0_register`.
#[verifier::external_body]
pub(crate) fn instr_op0_register(d: &Decoded) -> (r: u8)
    ensures
        r == decoded_op0_register(d.code_bytes(), d.address()),
{
    d.instr.op0_register() as u8
}

/// The code of `Instruction::memory_base`.
#[verifier::external_body]
pub(crate) fn instr_memory_base(d: &Decoded) -> (r: u8)
    ensures
        r == decoded_memory_base(d.code_bytes(), d.address()),
{
    d.instr.memory_base() as u8
}

/// The code of `Instruction::memory_index`.
#[verifier::external_body]
pub(crate) fn instr_memory_index(d: &Decoded) -> (r: u8)
    ensures
        r == decoded_memory_index(d.code_bytes(), d.address()),
{
    d.instr.memory_index() as u8
}

/// `Instruction::memory_index_scale`: 1, 2, 4 or 8.
#[verifier::external_body]
pub(crate) fn instr_memory_index_scale(d: &Decoded) -> (s: u32)
    ensures
        s == decoded_memory_index_scale(d.code_bytes(), d.address()),
        s == 1 || s == 2 || s == 4 || s == 8,
{
    d.instr.memory_index_scale()
}

/// `Instruction::memory_displacement64`.
#[verifier::external_body]
pub(crate) fn instr_memory_displacement(d: &Decoded) -> (v: u64)
    ensures
        v == decoded_memory_displacement(d.code_bytes(), d.address()),
{
    d.instr.memory_displacement64()
}

/// The code of `Instruction::segment_prefix`.
#[verifier::external_body]
pub(crate) fn instr_segment_prefix(d: &Decoded) -> (r: u8)
    ensures
        r == decoded_segment_prefix(d.code_bytes(), d.address()),
{
    d.instr.segment_prefix() as u8
}

/// `Instruction::is_ip_rel_memory_operand`: the memory base is `RIP` or `EIP`.
pub fn is_ip_rel_memory_operand(d: &Decoded) -> (res: bool)
    ensures
        res == (decoded_memory_base(d.code_bytes(), d.address()) == REG_RIP
            || decoded_memory_base(d.code_bytes(), d.address()) == REG_EIP),
{
    let base = instr_memory_base(d);
    base == REG_RIP || base == REG_EIP
}

/// The instruction in Intel syntax, as `IntelFormatter` writes it.
#[verifier::external_body]
pub fn format_instr(d: &Decoded) -> (res: String)
    ensures
        res@ == intel_text(d.code_bytes(), d.address()),
{
    let mut o = String::new();
    let mut formatter = IntelFormatter::new();
    formatter.format(&d.instr, &mut o);
    o
}

/// The name of the register with code `code`, as its `Debug` prints it.
/// Every code is a register: `iced_x86` has 256 of them, numbered from 0.
#[verifier::external_body]
pub(crate) fn register_name(code: u8) -> (res: String)
    ensures
        res@ == register_debug_name(code),
{
    let r = Register::try_from(code as usize).unwrap_or_default();
    format!("{:?}", r)
}

} // verus!
