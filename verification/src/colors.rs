//! HTML colouring of log text with the debugger's custom colour palette.
use vstd::prelude::*;
use crate::common::format::{format_dec, spec_dec};
use crate::common::HexError;
use crate::common::primitive::{push_char, str_chars};

verus! {

/// `s` with every space written as `&nbsp;` (`str::replace(" ", "&nbsp;")`).
pub open spec fn escape_spaces(s: Seq<char>) -> Seq<char>
    decreases s.len(),
{
    if s.len() == 0 {
        Seq::empty()
    } else {
        escape_spaces(s.drop_last()) + (if s.last() == ' ' {
            "&nbsp;"@
        } else {
            seq![s.last()]
        })
    }
}

/// The link `a` writes: `<a style="color:{color};" href="{href}">{text}</a>`,
/// with the spaces of `text` escaped.
pub open spec fn spec_a(text: Seq<char>, color: Seq<char>, href: Seq<char>) -> Seq<char> {
    "<a style=\"color:"@ + color + ";\" href=\""@ + href + "\">"@ + escape_spaces(text) + "</a>"@
}

/// Wraps `text` in a coloured HTML link; spaces in `text` become `&nbsp;`.
pub fn a(text: &str, color: &str, href: &str) -> (res: String)
    ensures
        res@ == spec_a(text@, color@, href@),
{
    let mut r = String::new();
    r.append("<a style=\"color:");
    r.append(color);
    r.append(";\" href=\"");
    r.append(href);
    r.append("\">");
    let ghost head = r@;
    let chars = str_chars(text);
    let mut i: usize = 0;
    while i < chars.len()
        invariant
            i <= chars@.len(),
            chars@ == text@,
            r@ == head + escape_spaces(chars@.take(i as int)),
        decreases chars.len() - i,
    {
        let c = chars[i];
        proof {
            let p = chars@.take(i + 1);
            assert(p.drop_last() =~= chars@.take(i as int));
            assert(p.last() == c);
        }
        if c == ' ' {
            r.append("&nbsp;");
        } else {
            push_char(&mut r, c);
        }
        i = i + 1;
        assert(r@ =~= head + escape_spaces(chars@.take(i as int)));
    }
    assert(chars@.take(i as int) =~= text@);
    r.append("</a>");
    assert(r@ =~= spec_a(text@, color@, href@));
    r
}

/// Escaped text holds no space, so HTML keeps every blank of the text.
pub proof fn lemma_escape_has_no_space(s: Seq<char>)
    ensures
        !escape_spaces(s).contains(' '),
    decreases s.len(),
{
    reveal_strlit("&nbsp;");
    if s.len() > 0 {
        lemma_escape_has_no_space(s.drop_last());
        let prev = escape_spaces(s.drop_last());
        let tail = if s.last() == ' ' { "&nbsp;"@ } else { seq![s.last()] };
        assert(!tail.contains(' '));
        assert forall|i: int| 0 <= i < escape_spaces(s).len() implies escape_spaces(s)[i] != ' ' by {
            if i < prev.len() {
                assert(escape_spaces(s)[i] == prev[i]);
            } else {
                assert(escape_spaces(s)[i] == tail[i - prev.len()]);
            }
        }
    }
}

/// Text without spaces is written unchanged.
pub proof fn lemma_escape_identity(s: Seq<char>)
    requires
        !s.contains(' '),
    ensures
        escape_spaces(s) == s,
    decreases s.len(),
{
    if s.len() > 0 {
        assert(!s.drop_last().contains(' ')) by {
            if s.drop_last().contains(' ') {
                let i = choose|i: int| 0 <= i < s.drop_last().len() && s.drop_last()[i] == ' ';
                assert(s[i] == ' ');
            }
        }
        lemma_escape_identity(s.drop_last());
        assert(s.last() != ' ') by {
            if s.last() == ' ' {
                assert(s[s.len() - 1] == ' ');
            }
        }
        assert(escape_spaces(s) =~= s);
    }
}

/// The custom colours of the debugger's settings that log lines use.
pub struct Palette {
    /// `CustomColor2`, 4, 5, 6, 8, 9, 10, 11 and 12, in that order, nine more
    /// for each `init_colors`.
    pub custom: Vec<String>,
    /// `CustomColor14`, used for separators and arrows.
    pub comment: String,
}

/// The settings `init_colors` reads, in order: the custom colours first,
/// the comment colour last.
pub open spec fn spec_palette_slots() -> Seq<u64> {
    seq![2, 4, 5, 6, 8, 9, 10, 11, 12, 14]
}

/// The setting name of custom colour `i` (`format!("CustomColor{}", i)`).
pub open spec fn spec_custom_color_name(i: nat) -> Seq<char> {
    "CustomColor"@ + spec_dec(i)
}

/// Names a custom colour setting.
pub fn custom_color_name(i: u64) -> (res: String)
    ensures
        res@ == spec_custom_color_name(i as nat),
{
    let mut s = String::new();
    s.append("CustomColor");
    let d = format_dec(i);
    s.append(d.as_str());
    s
}

/// The names of the settings that make up the palette, in the order that
/// `init_colors` expects their values.
pub fn palette_setting_names() -> (res: Vec<String>)
    ensures
        res@.len() == spec_palette_slots().len(),
        forall|k: int|
            0 <= k < res@.len() ==> #[trigger] res@[k]@ == spec_custom_color_name(
                spec_palette_slots()[k] as nat,
            ),
{
    let slots: [u64; 10] = [2, 4, 5, 6, 8, 9, 10, 11, 12, 14];
    assert(slots@ == spec_palette_slots());
    let mut res: Vec<String> = Vec::new();
    let mut k: usize = 0;
    while k < 10
        invariant
            k <= 10,
            slots@ == spec_palette_slots(),
            res@.len() == k,
            forall|j: int|
                0 <= j < k ==> #[trigger] res@[j]@ == spec_custom_color_name(
                    spec_palette_slots()[j] as nat,
                ),
        decreases 10 - k,
    {
        res.push(custom_color_name(slots[k]));
        k = k + 1;
    }
    res
}

impl Palette {
    /// At least the nine custom colours that one `init_colors` adds.
    pub open spec fn wf(&self) -> bool {
        self.custom@.len() >= 9
    }

    /// The palette before any colour was read: no custom colour and an
    /// empty comment colour.
    pub fn new() -> (res: Palette)
        ensures
            res.custom@.len() == 0,
            res.comment@.len() == 0,
    {
        Palette { custom: Vec::new(), comment: String::new() }
    }

    /// The colour at `idx`; an index equal to the number of colours wraps to
    /// the first one.
    pub open spec fn spec_color(&self, idx: int) -> Seq<char> {
        if idx >= self.custom@.len() {
            self.custom@[(self.custom@.len() as int) % idx]@
        } else {
            self.custom@[idx]@
        }
    }

    /// Colour `idx` of the palette. Indices past the number of colours plus
    /// one are refused.
    pub fn get_color(&self, idx: usize) -> (res: &str)
        requires
            idx <= self.custom@.len(),
            self.custom@.len() > 0,
        ensures
            res@ == self.spec_color(idx as int),
            idx == self.custom@.len() ==> res@ == self.custom@[0]@,
    {
        proof {
            let n = self.custom@.len() as int;
            if idx as int == n {
                assert(n % (idx as int) == 0) by (nonlinear_arith)
                    requires
                        idx as int == n,
                        n > 0,
                ;
            }
        }
        if idx >= self.custom.len() {
            self.custom[self.custom.len() % idx].as_str()
        } else {
            self.custom[idx].as_str()
        }
    }

    /// The colour of separators and arrows.
    pub fn get_color_comment(&self) -> (res: &str)
        ensures
            res@ == self.comment@,
    {
        self.comment.as_str()
    }
}

/// Reads the palette from the values of the settings that
/// `palette_setting_names` lists, in that order: the nine custom colours are
/// appended to those already there, and the comment colour is replaced.
pub fn init_colors(palette: &mut Palette, values: Vec<String>)
    requires
        values@.len() == spec_palette_slots().len(),
    ensures
        final(palette).custom@ == old(palette).custom@ + values@.take(9),
        final(palette).comment == values@[9],
        final(palette).wf(),
{
    let mut values = values;
    let comment = values.pop().unwrap();
    palette.custom.append(&mut values);
    palette.comment = comment;
}

/// The concatenation, for each `i`, of the link for custom colour `i` with
/// its value and a space.
pub open spec fn spec_color_list(values: Seq<String>) -> Seq<char>
    decreases values.len(),
{
    if values.len() == 0 {
        Seq::empty()
    } else {
        let i = (values.len() - 1) as nat;
        spec_color_list(values.drop_last()) + spec_a(
            spec_custom_color_name(i),
            values.last()@,
            "123"@,
        ) + " "@
    }
}

/// The line that lists every custom colour in its own colour, given the
/// value of `CustomColor0`, `CustomColor1`, ... in order.
fn test_colors_line(values: &Vec<String>) -> (res: String)
    ensures
        res@ == "CustomColors list: "@ + spec_color_list(values@) + "<br>"@,
{
    let mut s = String::new();
    let mut i: usize = 0;
    while i < values.len()
        invariant
            i <= values@.len(),
            s@ == spec_color_list(values@.take(i as int)),
        decreases values.len() - i,
    {
        let name = custom_color_name(i as u64);
        let link = a(name.as_str(), values[i].as_str(), "123");
        s.append(link.as_str());
        s.append(" ");
        proof {
            let p = values@.take(i + 1);
            assert(p.drop_last() =~= values@.take(i as int));
            assert(p.last() == values@[i as int]);
        }
        i = i + 1;
    }
    assert(values@.take(i as int) =~= values@);
    let mut line = String::new();
    line.append("CustomColors list: ");
    line.append(s.as_str());
    line.append("<br>");
    line
}

/// The settings to read for the colour list, given the parsed colour count
/// setting: `CustomColor0` up to the count, or none when the count is not a
/// hexadecimal number.
pub fn test_color_setting_names(count: Result<usize, HexError>) -> (res: Vec<String>)
    ensures
        count is Err ==> res@.len() == 0,
        count matches Ok(n) ==> res@.len() == n && forall|i: int|
            0 <= i < n ==> (#[trigger] res@[i])@ == spec_custom_color_name(i as nat),
{
    let n: usize = match count {
        Ok(n) => n,
        Err(_) => 0,
    };
    let mut names: Vec<String> = Vec::new();
    let mut i: usize = 0;
    while i < n
        invariant
            i <= n,
            names@.len() == i,
            forall|j: int| 0 <= j < i ==> (#[trigger] names@[j])@ == spec_custom_color_name(j as nat),
        decreases n - i,
    {
        names.push(custom_color_name(i as u64));
        i = i + 1;
    }
    names
}

/// The list of the custom colours, each in its own colour, given the
/// parsed colour count setting and the values of the settings that
/// `test_color_setting_names` names; when the count is not a hexadecimal
/// number, the message to log instead.
pub fn print_test_colors(count: Result<usize, HexError>, values: &Vec<String>) -> (res: Result<String, String>)
    requires
        count matches Ok(n) ==> values@.len() == n,
    ensures
        count is Err ==> (res matches Err(m) && m@ == "Can't get CustomColorCount from settings"@),
        count is Ok ==> (res matches Ok(line) && line@ == "CustomColors list: "@ + spec_color_list(values@)
            + "<br>"@),
{
    match count {
        Err(_) => Err(String::from_str("Can't get CustomColorCount from settings")),
        Ok(_) => Ok(test_colors_line(values)),
    }
}

} // verus!
