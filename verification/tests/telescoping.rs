use dbg_expy::colors::{a, init_colors, Palette};
use dbg_expy::telescope::{
    contains_str, follow, join_strings, telescope, telescope_line, telescope_next_query, AddressInfo,
};

fn palette() -> Palette {
    let mut p = Palette::new();
    init_colors(&mut p, (0..10).map(|i| format!("#c{}", i)).collect());
    p
}

fn info(address: usize) -> AddressInfo {
    AddressInfo {
        address,
        module: String::new(),
        section: String::new(),
        label: String::new(),
        string: String::new(),
        plain_label: String::new(),
        pointer: None,
    }
}

fn addr_link(addr: usize) -> String {
    let h = format!("{:016x}", addr);
    a(&h, "#c8", &format!("x64dbg://localhost/address64#{}", h))
}

/// Builds the chain the way the plugin does, from a table of answers.
fn chain(addr: usize, rcount: u32, answers: &dyn Fn(usize) -> AddressInfo) -> Vec<AddressInfo> {
    let mut c = Vec::new();
    while let Some(next) = telescope_next_query(addr, rcount, &c) {
        c.push(answers(next));
    }
    c
}

fn line(addr: usize, rcount: u32, answers: &dyn Fn(usize) -> AddressInfo) -> String {
    let c = chain(addr, rcount, answers);
    let mut out = String::new();
    telescope_line(addr, rcount, &c, &palette(), &mut out);
    out
}

#[test]
fn slot_addresses() {
    assert_eq!(telescope(0x1000, 3), vec![0x1000, 0x1008, 0x1010]);
    assert_eq!(telescope(0x1000, 0), Vec::<usize>::new());
}

#[test]
fn exhausted_line() {
    let c = chain(0x10, 0, &info);
    assert!(c.is_empty());
    let mut out = String::from("x");
    telescope_line(0x10, 0, &c, &palette(), &mut out);
    assert_eq!(out, "x ...");
}

#[test]
fn pointers_are_followed_until_levels_run_out() {
    // every address holds a pointer to the next 0x1000 bytes up
    let answers = |a: usize| {
        let mut i = info(a);
        i.pointer = Some(a + 0x1000);
        i
    };
    let c = chain(0x1000, 2, &answers);
    assert_eq!(c.len(), 2);
    assert_eq!(c[1].address, 0x2000);
    assert_eq!(
        line(0x1000, 2, &answers),
        format!("{}{}{} ...", addr_link(0x1000), a(" -> ", "#c9", ""), addr_link(0x2000))
    );
    assert_eq!(chain(0x1000, 5, &answers).len(), 5);
}

#[test]
fn unreadable_pointer_stops() {
    assert_eq!(line(0x1000, 4, &info), addr_link(0x1000));
    assert_eq!(chain(0x1000, 4, &info).len(), 1);
}

#[test]
fn code_address_stops() {
    let answers = |a: usize| {
        let mut i = info(a);
        i.module = "kernel32.dll".to_string();
        i.section = ".text".to_string();
        i.label = "CreateFileW".to_string();
        i.pointer = Some(0x2000);
        i
    };
    assert_eq!(follow(&answers(0x1000)), None);
    let expected = format!(
        "{}{}{}{}",
        addr_link(0x1000),
        a(" (", "#c9", ""),
        a("kernel32.dll:.text CreateFileW", "#c3", ""),
        a(")", "#c9", "")
    );
    assert_eq!(line(0x1000, 4, &answers), expected);
}

#[test]
fn string_address_stops_and_shows_string() {
    let answers = |a: usize| {
        let mut i = info(a);
        i.module = "app.exe".to_string();
        i.string = "\"hello\"".to_string();
        i.pointer = Some(0x2000);
        i
    };
    let expected = format!(
        "{}{}{}{}{}{}",
        addr_link(0x1000),
        a(" (", "#c9", ""),
        a("app.exe", "#c3", ""),
        a(" | ", "#c9", ""),
        a("\"hello\"", "#c4", ""),
        a(")", "#c9", "")
    );
    assert_eq!(line(0x1000, 4, &answers), expected);
}

#[test]
fn label_already_naming_string_is_not_repeated() {
    let answers = |a: usize| {
        let mut i = info(a);
        i.module = "m".to_string();
        i.section = ".data".to_string();
        i.label = "msg_hello".to_string();
        i.string = "hello".to_string();
        i
    };
    let expected = format!(
        "{}{}{}{}",
        addr_link(0x1000),
        a(" (", "#c9", ""),
        a("m:.data msg_hello", "#c3", ""),
        a(")", "#c9", "")
    );
    assert_eq!(line(0x1000, 4, &answers), expected);
}

#[test]
fn plain_label_when_no_string() {
    let answers = |a: usize| {
        let mut i = info(a);
        if a == 0x1000 {
            i.module = "m".to_string();
            i.section = ".data".to_string();
            i.label = "g +010".to_string();
            i.plain_label = "exact".to_string();
            i.pointer = Some(0x30);
        }
        i
    };
    let expected = format!(
        "{}{}{}{}{}{}{}{}",
        addr_link(0x1000),
        a(" (", "#c9", ""),
        a("m:.data g +010", "#c3", ""),
        a(" | ", "#c9", ""),
        a("exact", "#c5", ""),
        a(")", "#c9", ""),
        a(" -> ", "#c9", ""),
        addr_link(0x30)
    );
    assert_eq!(line(0x1000, 4, &answers), expected);
}

#[test]
fn substrings_and_joins() {
    assert!(contains_str(".text", ".text"));
    assert!(contains_str("abc.textx", ".text"));
    assert!(!contains_str(".tex", ".text"));
    assert!(contains_str("abc", ""));
    assert!(!contains_str("", "a"));
    assert_eq!(join_strings(&vec!["a".to_string(), "b".to_string(), "c".to_string()], ", "), "a, b, c");
    assert_eq!(join_strings(&vec![], ", "), "");
    assert_eq!(join_strings(&vec!["x".to_string()], "|"), "x");
}

#[test]
fn line_goes_on_as_the_pointer_line() {
    let pointing = |a: usize| AddressInfo { pointer: Some(a + 8), ..info(a) };
    let p = palette();
    let c = chain(0x1000, 3, &pointing);
    let mut whole = String::new();
    telescope_line(0x1000, 3, &c, &p, &mut whole);
    // the line of the pointer one level down, over the rest of the answers,
    // written after the description of 0x1000
    let mut first = String::new();
    telescope_line(0x1000, 1, &vec![pointing(0x1000)], &p, &mut first);
    assert_eq!(first, format!("{} ...", addr_link(0x1000)));
    let mut rest = addr_link(0x1000);
    telescope_line(0x1008, 2, &c[1..].iter().map(|i| pointing(i.address)).collect(), &p, &mut rest);
    assert_eq!(whole, rest);
    // no answers: nothing is written
    let mut out = String::from("x");
    telescope_line(0x1000, 3, &Vec::new(), &p, &mut out);
    assert_eq!(out, "x");
}
