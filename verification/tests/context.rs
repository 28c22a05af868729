use dbg_expy::colors::{a, init_colors, Palette};
use dbg_expy::telescope::{telescope_line, telescope_next_query, AddressInfo};
use dbg_expy::common::{
    argument_to_read, command_usage, from_hex_or_eval, get_label, label_with_offset, print_context, print_emu,
    print_regs, print_stack, register_line, register_view, telescope_args, unicorn_args,
    CommandError, ContextStep, LabelStep, RegisterContext, LABEL_SEARCH_RANGE,
};

fn palette() -> Palette {
    let mut p = Palette::new();
    init_colors(&mut p, (0..10).map(|i| format!("#c{}", i)).collect());
    p
}

fn context() -> RegisterContext {
    RegisterContext {
        cax: 1, ccx: 2, cdx: 3, cbx: 4, csp: 5, cbp: 6, csi: 7, cdi: 8, r8: 9, r9: 10, r10: 11,
        r11: 12, r12: 13, r13: 14, r14: 15, r15: 16, cip: 17, eflags: 0x246,
    }
}

#[test]
fn hex_or_evaluated() {
    assert_eq!(from_hex_or_eval("0x401000"), Some(0x401000));
    assert_eq!(from_hex_or_eval("rsp"), None);
    assert_eq!(from_hex_or_eval(""), None);
}

#[test]
fn register_view_values() {
    let regs = register_view(&context());
    let names: Vec<&str> = regs.iter().map(|(_, n)| n.as_str()).collect();
    assert_eq!(
        names,
        ["rax", "rcx", "rdx", "rbx", "rsp", "rbp", "rsi", "rdi", "r8", "r9", "r10", "r11", "r12", "r13", "r14", "r15", "rip"]
    );
    let values: Vec<u64> = regs.iter().map(|(v, _)| *v).collect();
    assert_eq!(values, (1..=17).collect::<Vec<u64>>());
    let p = palette();
    assert_eq!(
        register_line("r8", "T", &p),
        format!("{} {} T<br>", a("r8 ", "#c1", ""), a("=", "#c9", ""))
    );
}

fn plain(address: usize) -> AddressInfo {
    AddressInfo {
        address,
        module: String::new(),
        section: String::new(),
        label: String::new(),
        string: String::new(),
        plain_label: String::new(),
        pointer: None,
    }
}

#[test]
fn register_view_lines() {
    let p = palette();
    let ctx = context();
    // each register value is an unreadable address: a chain of one
    let chains: Vec<Vec<AddressInfo>> = register_view(&ctx)
        .iter()
        .map(|(v, _)| {
            let mut c = Vec::new();
            while let Some(a) = telescope_next_query(*v as usize, 8, &c) {
                c.push(plain(a));
            }
            c
        })
        .collect();
    assert!(chains.iter().all(|c| c.len() == 1));
    let lines = print_regs(&ctx, &chains, &p);
    assert_eq!(lines.len(), 17);
    let mut t = String::new();
    telescope_line(1, 8, &chains[0], &p, &mut t);
    assert_eq!(lines[0], register_line("rax", &t, &p));
    assert_eq!(lines[16], {
        let mut t = String::new();
        telescope_line(17, 8, &chains[16], &p, &mut t);
        register_line("rip", &t, &p)
    });
    let h = format!("{:016x}", 17);
    assert!(lines[16].contains(&h));
}

#[test]
fn stack_and_code_views() {
    match print_stack((true, 0x7ff0)) {
        ContextStep::Telescope { addr, size, rcount } => assert_eq!((addr, size, rcount), (0x7ff0, 10, 8)),
        other => panic!("{:?}", other),
    }
    match print_stack((false, 0)) {
        ContextStep::Log(m) => assert_eq!(m, "rsp not found"),
        other => panic!("{:?}", other),
    }
    match print_emu((true, 0x401000)) {
        ContextStep::Emulate { addr, count } => assert_eq!((addr, count), (0x401000, 15)),
        other => panic!("{:?}", other),
    }
    match print_emu((false, 3)) {
        ContextStep::Log(m) => assert_eq!(m, "rip not found"),
        other => panic!("{:?}", other),
    }
}

#[test]
fn context_headers() {
    let p = palette();
    let h = print_context(&p);
    assert_eq!(h.len(), 3);
    assert_eq!(h[0], format!("{}<br>", a("--- Registers ---", "#c0", "")));
    assert_eq!(h[1], format!("{}<br>", a("--- Code [Unicorn] ---", "#c0", "")));
    assert_eq!(h[2], format!("{}<br>", a("--- Stack ---", "#c0", "")));
}

#[test]
fn labels() {
    assert_eq!(label_with_offset("main", 0), "main");
    assert_eq!(label_with_offset("main", 0x1a), "main +01a");
    assert_eq!(label_with_offset("f", 0x1fff), "f +1fff");
    assert_eq!(LABEL_SEARCH_RANGE, 0x2000);
}

#[test]
fn label_search_steps() {
    let probe = |addr, probes: &Vec<String>| match get_label(addr, probes) {
        LabelStep::Probe(p) => Err(p),
        LabelStep::Found(l) => Ok(l),
    };
    assert_eq!(probe(0x1000, &vec![]), Err(Some(0x1000)));
    assert_eq!(probe(0x1000, &vec![String::new()]), Err(Some(0xfff)));
    assert_eq!(probe(0x1000, &vec![String::new(), String::new(), "main".to_string()]), Ok("main +002".to_string()));
    assert_eq!(probe(0x1000, &vec!["f".to_string()]), Ok("f".to_string()));
    assert_eq!(probe(1, &vec![String::new(), String::new()]), Err(None));
    let none = vec![String::new(); LABEL_SEARCH_RANGE];
    assert_eq!(probe(0x10000, &none), Ok(String::new()));
}

#[test]
fn command_arguments() {
    assert_eq!(telescope_args(&vec![]), Err(CommandError::Usage));
    assert_eq!(telescope_args(&vec![0]), Err(CommandError::InvalidAddress));
    assert_eq!(telescope_args(&vec![0x1000]), Ok((0x1000, 0x10, 8)));
    assert_eq!(telescope_args(&vec![0x1000, 0, 0]), Ok((0x1000, 0x10, 8)));
    assert_eq!(telescope_args(&vec![0x1000, 4, 2]), Ok((0x1000, 4, 2)));
    assert_eq!(telescope_args(&vec![0x1000, 4, 0x1_0000_0003]), Ok((0x1000, 4, 3)));
    assert_eq!(unicorn_args(&vec![]), Err(CommandError::Usage));
    assert_eq!(unicorn_args(&vec![0, 5]), Err(CommandError::InvalidAddress));
    assert_eq!(unicorn_args(&vec![0x10]), Ok((0x10, 0x10)));
    assert_eq!(unicorn_args(&vec![0x10, 3]), Ok((0x10, 3)));
    assert_eq!(command_usage("tele", true), "Usage: tele {address}[,size in hex][,recursion count]");
    assert_eq!(command_usage("uni", false), "Usage: uni {address},[size]");
}

#[test]
fn arguments_are_evaluated_as_needed() {
    // `tele addr,size,depth,extra`: argc 5, three arguments used
    assert_eq!(argument_to_read(5, &vec![], 3), Some(1));
    assert_eq!(argument_to_read(5, &vec![0x1000], 3), Some(2));
    assert_eq!(argument_to_read(5, &vec![0x1000, 4], 3), Some(3));
    assert_eq!(argument_to_read(5, &vec![0x1000, 4, 2], 3), None);
    // an address of 0 stops there
    assert_eq!(argument_to_read(5, &vec![0], 3), None);
    // only the command name
    assert_eq!(argument_to_read(1, &vec![], 3), None);
    assert_eq!(argument_to_read(0, &vec![], 3), None);
    // `uni addr,size,extra`: two used
    assert_eq!(argument_to_read(4, &vec![0x10, 5], 2), None);
    assert_eq!(argument_to_read(2, &vec![0x10], 2), None);
}
