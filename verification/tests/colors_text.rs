use dbg_expy::colors::{
    a, custom_color_name, init_colors, palette_setting_names, print_test_colors, test_color_setting_names, Palette,
};
use dbg_expy::common::HexError;
use dbg_expy::common::format::{align_left, align_right, char_count, push_repeat};
use dbg_expy::common::primitive::{str_chars, str_to_vec, vec_to_string};

fn palette() -> Palette {
    let values: Vec<String> = (0..10).map(|i| format!("#c{}", i)).collect();
    let mut p = Palette::new();
    init_colors(&mut p, values);
    p
}

#[test]
fn anchor_escapes_spaces() {
    assert_eq!(
        a("a b  c", "#ff0000", "x64dbg://x"),
        "<a style=\"color:#ff0000;\" href=\"x64dbg://x\">a&nbsp;b&nbsp;&nbsp;c</a>"
    );
    assert_eq!(a("", "", ""), "<a style=\"color:;\" href=\"\"></a>");
    assert_eq!(a("é ü", "c", ""), "<a style=\"color:c;\" href=\"\">é&nbsp;ü</a>");
}

#[test]
fn anchor_matches_replace_and_format() {
    for (t, c, h) in [("x y", "#123", "h"), ("no_space", "red", ""), (" lead", "", "l")] {
        let expected = format!("<a style=\"color:{c};\" href=\"{h}\">{}</a>", t.replace(" ", "&nbsp;"));
        assert_eq!(a(t, c, h), expected);
    }
}

#[test]
fn color_names() {
    assert_eq!(custom_color_name(0), "CustomColor0");
    assert_eq!(custom_color_name(14), "CustomColor14");
    let names = palette_setting_names();
    let expected: Vec<String> = [2, 4, 5, 6, 8, 9, 10, 11, 12, 14].iter().map(|i| format!("CustomColor{}", i)).collect();
    assert_eq!(names, expected);
}

#[test]
fn palette_lookup() {
    let p = palette();
    assert_eq!(p.custom.len(), 9);
    assert_eq!(p.get_color(0), "#c0");
    assert_eq!(p.get_color(8), "#c8");
    // one past the end wraps to the first colour
    assert_eq!(p.get_color(9), "#c0");
    assert_eq!(p.get_color_comment(), "#c9");
}

#[test]
fn test_colors_line() {
    let values = vec!["#111".to_string(), "#222".to_string()];
    let line = print_test_colors(Ok(2), &values);
    let expected = format!(
        "CustomColors list: {} {} <br>",
        a("CustomColor0", "#111", "123"),
        a("CustomColor1", "#222", "123")
    );
    assert_eq!(line, Ok(expected));
    assert_eq!(print_test_colors(Ok(0), &vec![]), Ok("CustomColors list: <br>".to_string()));
    assert_eq!(
        print_test_colors(Err(HexError::Empty), &vec![]),
        Err("Can't get CustomColorCount from settings".to_string())
    );
}

#[test]
fn test_color_settings() {
    assert_eq!(test_color_setting_names(Ok(3)), vec!["CustomColor0", "CustomColor1", "CustomColor2"]);
    assert_eq!(test_color_setting_names(Err(HexError::InvalidDigit)), Vec::<String>::new());
    assert_eq!(test_color_setting_names(Ok(0)), Vec::<String>::new());
}

#[test]
fn c_strings() {
    assert_eq!(str_to_vec("ab"), vec![b'a', b'b', 0]);
    assert_eq!(str_to_vec(""), vec![0]);
    assert_eq!(vec_to_string(b"hi\0there\0"), "hi");
    assert_eq!(vec_to_string(b"\0"), "");
    assert_eq!(vec_to_string(&[0x66, 0xff, 0x6f, 0]), "f\u{fffd}o");
    assert_eq!(vec_to_string(&[0xc3, 0xbc, b'n', 0]), "ün");
    for s in ["", "abc", "ünï €𝄞"] {
        assert_eq!(vec_to_string(&str_to_vec(s)), s);
    }
}

#[test]
fn char_helpers() {
    let mut s = String::from("abé");
    push_repeat(&mut s, '0', 3);
    assert_eq!(s, "abé000");
    assert_eq!(str_chars("aé"), vec!['a', 'é']);
    assert_eq!(char_count("aéb"), 3);
}

#[test]
fn alignment() {
    assert_eq!(align_right("ab", 5), format!("{:>5}", "ab"));
    assert_eq!(align_right("abcdef", 5), "abcdef");
    assert_eq!(align_left("r8", 3), format!("{:3}", "r8"));
    assert_eq!(align_left("rax", 3), "rax");
    assert_eq!(align_left("é", 3), format!("{:3}", "é"));
}

#[test]
fn colours_read_again_are_appended() {
    let mut p = Palette::new();
    assert!(p.custom.is_empty());
    assert_eq!(p.get_color_comment(), "");
    init_colors(&mut p, (0..10).map(|i| format!("#a{}", i)).collect());
    assert_eq!(p.custom.len(), 9);
    assert_eq!(p.get_color_comment(), "#a9");
    init_colors(&mut p, (0..10).map(|i| format!("#b{}", i)).collect());
    // nine more colours after the first nine, and the new comment colour
    assert_eq!(p.custom.len(), 18);
    assert_eq!(p.get_color(8), "#a8");
    assert_eq!(p.get_color(9), "#b0");
    assert_eq!(p.get_color(17), "#b8");
    assert_eq!(p.get_color_comment(), "#b9");
}
