use dbg_expy::colors::{a, init_colors, Palette};
use dbg_expy::common::disasm::{decode_instr, format_instr, is_ip_rel_memory_operand, REG_EIP, REG_GS, REG_NONE, REG_RIP};
use dbg_expy::common::RegisterContext;
use dbg_expy::unicorn::{
    emulation_first, emulation_next, emulation_range, emulation_step, EmulationNext, fill_regs, EmulationStop, get_aligned_addr_and_size, has_unicorn_counterpart,
    iced_reg_to_unicorn, instruction_registers, memory_inputs, memory_reference,
    next_affected_registers, page_align, print_instruction, print_instruction_checked, register_list, UnicornReg,
    telescope_target, ONE_INSTRUCTION_MAX_SIZE, PAGE_SIZE,
};
use dbg_expy::telescope::{telescope_line, telescope_next_query, AddressInfo};
use iced_x86::Register;

// mov rax,[rbx+rcx*4+8]
const MOV_SIB: [u8; 5] = [0x48, 0x8B, 0x44, 0x8B, 0x08];
// mov rax,[rip+10h]
const MOV_RIP: [u8; 7] = [0x48, 0x8B, 0x05, 0x10, 0x00, 0x00, 0x00];
// mov rax,gs:[30h]
const MOV_GS: [u8; 9] = [0x65, 0x48, 0x8B, 0x04, 0x25, 0x30, 0x00, 0x00, 0x00];
// sub rsp,28h
const SUB_RSP: [u8; 4] = [0x48, 0x83, 0xEC, 0x28];

fn palette() -> Palette {
    let mut p = Palette::new();
    init_colors(&mut p, (0..10).map(|i| format!("#c{}", i)).collect());
    p
}

#[test]
fn pages() {
    assert_eq!(PAGE_SIZE, 0x1000);
    assert_eq!(page_align(0x1234), 0x1000);
    assert_eq!(page_align(0x2000), 0x2000);
    assert_eq!(page_align(0xfff), 0);
    assert_eq!(page_align(usize::MAX), usize::MAX - 0xfff);
    assert_eq!(page_align(page_align(0x12345)), page_align(0x12345));
}

#[test]
fn aligned_regions() {
    assert_eq!(get_aligned_addr_and_size(0x401234, 8), (0x401000, 0x1000));
    assert_eq!(get_aligned_addr_and_size(0x401000, 0x1800), (0x401000, 0x2000));
    // covered: offset 0x234 and size part 8 fit in a page
    let (s, l) = get_aligned_addr_and_size(0x401234, 8);
    assert!(s <= 0x401234 && 0x401234 + 8 <= s + l);
    // not covered: the access crosses a page boundary
    let (s, l) = get_aligned_addr_and_size(0xfff, 2);
    assert_eq!((s, l), (0, 0x1000));
    assert!(0xfff + 2 > s + l);
}

#[test]
fn register_codes_match_iced() {
    assert_eq!(Register::None as u8, REG_NONE);
    assert_eq!(Register::GS as u8, REG_GS);
    assert_eq!(Register::RIP as u8, REG_RIP);
    assert_eq!(Register::EIP as u8, REG_EIP);
}

#[test]
fn unicorn_register_names_follow_iced() {
    for code in 1u8..=76 {
        assert!(has_unicorn_counterpart(code));
        let iced = format!("{:?}", Register::try_from(code as usize).unwrap());
        let expected = if iced.starts_with('R') && iced.ends_with('L') && iced[1..iced.len() - 1].parse::<u8>().is_ok() {
            format!("{}B", &iced[..iced.len() - 1])
        } else {
            iced.clone()
        };
        assert_eq!(format!("{:?}", iced_reg_to_unicorn(code)), expected, "code {}", code);
    }
    assert!(!has_unicorn_counterpart(0));
    assert!(!has_unicorn_counterpart(Register::XMM0 as u8));
    assert_eq!(iced_reg_to_unicorn(0), UnicornReg::RAX);
    assert_eq!(iced_reg_to_unicorn(Register::XMM0 as u8), UnicornReg::RAX);
    assert_eq!(iced_reg_to_unicorn(Register::R8L as u8), UnicornReg::R8B);
}

#[test]
fn decoding_accessors() {
    // what the decoder says of mov rax,[rbx+rcx*4+8], seen through the library
    let d = decode_instr(&MOV_SIB, 0x1000);
    assert_eq!(format_instr(&d), "mov rax,[rbx+rcx*4+8]");
    // length 5
    assert_eq!(emulation_range(&d, 0x1000), Some((0x1000, 0x1005)));
    // a register operand, then a memory operand with base and index
    assert_eq!(instruction_registers(&d, &vec![]), vec![Register::RAX as u8, Register::RBX as u8, Register::RCX as u8]);
    assert_eq!(next_affected_registers(&d), vec![Register::RAX as u8]);
    // no segment prefix; scale 4, displacement 8
    assert_eq!(memory_inputs(&d), (Register::RBX as u8, Register::RCX as u8, false));
    assert_eq!(memory_reference(&d, 0x7000, 0x100, 2), 0x110);
    assert!(!is_ip_rel_memory_operand(&d));
    // register names as iced spells them
    assert_eq!(register_list(&vec![Register::RAX as u8, Register::R8D as u8], &vec![1, 2]), "RAX: 1, R8D: 2");
    // the instruction's address leads its line
    let (line, _) = print_instruction(&d, &vec![], &vec![0, 0, 0], 0, 0x100, 2, "", &chain_for(0x110), &palette());
    assert!(line.starts_with(&a("0000000000001000", "#c1", "x64dbg://localhost/address64#0000000000001000")));
}

#[test]
fn undecodable_input() {
    let d = decode_instr(&[], 0x1000);
    assert_eq!(instruction_registers(&d, &vec![]), Vec::<u8>::new());
    assert_eq!(emulation_range(&d, 0x1000), None);
    assert_eq!(emulation_step(&d, 0x1000), Err(EmulationStop::Undecodable));
}

#[test]
fn registers_beside_instructions() {
    let d = decode_instr(&MOV_SIB, 0x1000);
    let regs = instruction_registers(&d, &vec![]);
    assert_eq!(regs, vec![Register::RAX as u8, Register::RBX as u8, Register::RCX as u8]);
    // registers already listed are not repeated
    let regs = instruction_registers(&d, &vec![Register::RCX as u8]);
    assert_eq!(regs, vec![Register::RCX as u8, Register::RAX as u8, Register::RBX as u8]);
    assert_eq!(next_affected_registers(&d), vec![Register::RAX as u8]);
    let values = vec![0x10u64, 0xff];
    assert_eq!(
        register_list(&vec![Register::RAX as u8, Register::RBX as u8], &values),
        "RAX: 10, RBX: ff"
    );
    assert_eq!(register_list(&vec![], &vec![]), "");
}

#[test]
fn memory_references() {
    let d = decode_instr(&MOV_SIB, 0x1000);
    assert_eq!(memory_inputs(&d), (Register::RBX as u8, Register::RCX as u8, false));
    assert_eq!(memory_reference(&d, 0x7000, 0x100, 2), 0x100 + 2 * 4 + 8);
    // negative displacements wrap like the processor's arithmetic
    let d = decode_instr(&[0x48, 0x8B, 0x45, 0xF8], 0x1000); // mov rax,[rbp-8]
    assert_eq!(memory_reference(&d, 0, 0x100, 0), 0xF8);

    let d = decode_instr(&MOV_RIP, 0x1000);
    assert!(is_ip_rel_memory_operand(&d));
    assert_eq!(memory_inputs(&d), (REG_NONE, REG_NONE, false));
    assert_eq!(memory_reference(&d, 0x7000, 5, 6), 0x1000 + 7 + 0x10);

    let d = decode_instr(&MOV_GS, 0x1000);
    assert_eq!(memory_inputs(&d), (REG_NONE, REG_NONE, true));
    assert_eq!(memory_reference(&d, 0x7000, 5, 6), 0x7030);

    let d = decode_instr(&SUB_RSP, 0x1000);
    assert_eq!(memory_inputs(&d), (REG_NONE, REG_NONE, false));
    assert_eq!(memory_reference(&d, 0x7000, 5, 6), 0);
    assert_eq!(emulation_range(&d, 0x1000), Some((0x1000, 0x1004)));
    assert_eq!(emulation_step(&d, 0x1000), Ok((0x1000, 0x1004)));
    assert_eq!(emulation_step(&d, usize::MAX - 4), Ok(((usize::MAX - 4) as u64, u64::MAX)));
    assert_eq!(emulation_step(&d, usize::MAX - 3), Err(EmulationStop::AddressOverflow));
    assert_eq!(ONE_INSTRUCTION_MAX_SIZE, 15);
}

fn unreadable(address: usize) -> AddressInfo {
    AddressInfo {
        address,
        module: String::new(),
        section: String::new(),
        label: String::new(),
        string: String::new(),
        plain_label: String::new(),
        pointer: None,
    }
}

fn chain_for(addr: usize) -> Vec<AddressInfo> {
    let mut c = Vec::new();
    while let Some(a) = telescope_next_query(addr, 3, &c) {
        c.push(unreadable(a));
    }
    c
}

#[test]
fn instruction_line() {
    let p = palette();
    let d = decode_instr(&SUB_RSP, 0x401000);
    assert_eq!(telescope_target(&d, 0, 0, 0), None);
    let (line, next) = print_instruction(&d, &vec![], &vec![0x10], 0, 0, 0, "main", &vec![], &p);
    let expected = format!(
        "{} {} {}  {}<br>",
        a("0000000000401000", "#c1", "x64dbg://localhost/address64#0000000000401000"),
        a(&format!("{:>40}", "main"), "#c1", ""),
        a(&format!("{:30}", "sub rsp,28h"), "#c2", ""),
        a("RSP: 10", "#c4", "")
    );
    assert_eq!(line, expected);
    assert_eq!(next, vec![Register::RSP as u8]);
}

#[test]
fn instruction_line_carries_registers_once() {
    let p = palette();
    // mov rax,rcx with RAX carried over from the previous instruction
    let d = decode_instr(&[0x48, 0x89, 0xC8], 0x140001000);
    let affected = vec![Register::RAX as u8];
    assert_eq!(instruction_registers(&d, &affected), vec![Register::RAX as u8, Register::RCX as u8]);
    let (line, next) = print_instruction(&d, &affected, &vec![0, 0], 0, 0, 0, "", &vec![], &p);
    assert!(line.contains(&a("RAX: 0, RCX: 0", "#c4", "")));
    assert_eq!(next, vec![Register::RAX as u8]);
}

#[test]
fn instruction_line_telescopes_the_reference() {
    let p = palette();
    // mov rax,[rbp-8] with RBP = 0x1000
    let d = decode_instr(&[0x48, 0x8B, 0x45, 0xF8], 0x1000);
    assert_eq!(telescope_target(&d, 0, 0x1000, 0), Some(0xFF8));
    let c = chain_for(0xFF8);
    let regs = instruction_registers(&d, &vec![]);
    let values = vec![0u64; regs.len()];
    let (line, _) = print_instruction(&d, &vec![], &values, 0, 0x1000, 0, "", &c, &p);
    let mut t = String::new();
    telescope_line(0xFF8, 3, &c, &p, &mut t);
    assert!(line.contains(&format!(" {} ", t)));
    assert!(t.contains("0000000000000ff8"));

    // rip-relative: the absolute target, no register added
    let d = decode_instr(&MOV_RIP, 0x140001000);
    assert_eq!(telescope_target(&d, 0x7000, 5, 6), Some(0x140001017));
}

#[test]
fn emulator_registers() {
    let ctx = RegisterContext {
        cax: 1, ccx: 2, cdx: 3, cbx: 4, csp: 5, cbp: 6, csi: 7, cdi: 8, r8: 9, r9: 10, r10: 11,
        r11: 12, r12: 13, r13: 14, r14: 15, r15: 16, cip: 17, eflags: 0x246,
    };
    let writes = fill_regs(&ctx);
    assert_eq!(writes.len(), 18);
    assert_eq!(writes[0], (UnicornReg::RAX, 1));
    assert_eq!(writes[15], (UnicornReg::R15, 16));
    assert_eq!(writes[16], (UnicornReg::R15, 17));
    assert_eq!(writes[17], (UnicornReg::EFLAGS, 0x246));
}

#[test]
fn instruction_line_checks_its_inputs() {
    let p = palette();
    let d = decode_instr(&[0x48, 0x89, 0xC8], 0x140001000);
    let affected = vec![Register::RAX as u8];
    // one value short
    assert_eq!(print_instruction_checked(&d, &affected, &vec![0], 0, 0, 0, "", &vec![], &p), None);
    let checked = print_instruction_checked(&d, &affected, &vec![0, 0], 0, 0, 0, "", &vec![], &p);
    assert_eq!(checked, Some(print_instruction(&d, &affected, &vec![0, 0], 0, 0, 0, "", &vec![], &p)));

    // a memory operand: one value short again
    let d = decode_instr(&[0x48, 0x8B, 0x45, 0xF8], 0x1000);
    let regs = instruction_registers(&d, &vec![]);
    let values = vec![0u64; regs.len()];
    assert_eq!(print_instruction_checked(&d, &vec![], &values[1..].to_vec(), 0, 0x1000, 0, "", &vec![], &p), None);
    let c = chain_for(0xFF8);
    assert_eq!(
        print_instruction_checked(&d, &vec![], &values, 0, 0x1000, 0, "", &c, &p),
        Some(print_instruction(&d, &vec![], &values, 0, 0x1000, 0, "", &c, &p))
    );
}

#[test]
fn emulation_loop_steps() {
    assert_eq!(emulation_first(0x401000, 0), EmulationNext::Done);
    assert_eq!(emulation_first(0x401000, 3), EmulationNext::Run(0x401000));
    // the next address comes from the emulator's instruction pointer
    assert_eq!(emulation_next(0, 3, Some(0x401004)), EmulationNext::Run(0x401004));
    assert_eq!(emulation_next(1, 3, Some(0x401008)), EmulationNext::Run(0x401008));
    // the third of three ends the emulation
    assert_eq!(emulation_next(2, 3, Some(0x40100c)), EmulationNext::Done);
    // any failure stops it
    assert_eq!(emulation_next(0, 3, None), EmulationNext::Abort);
    assert_eq!(emulation_next(5, 3, Some(1)), EmulationNext::Done);
}
