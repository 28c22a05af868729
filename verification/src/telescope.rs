//! Telescoping: a line per pointer-sized slot that follows the chain of
//! pointers from it and says what the debugger knows of each address.
use vstd::prelude::*;
use crate::colors::{a, spec_a, Palette};
use crate::common::format::{format_hex, spec_hex};
use crate::common::{HexError, spec_from_hex, lemma_hex_round_trip};
use crate::common::primitive::str_chars;

verus! {

/// The addresses of the `size` pointer-sized slots from `addr`, one line each.
pub fn telescope(addr: usize, size: usize) -> (res: Vec<usize>)
    requires
        size == 0 || addr + (size - 1) * 8 <= usize::MAX,
    ensures
        res@.len() == size,
        forall|i: int| 0 <= i < size ==> #[trigger] res@[i] == addr + i * 8,
{
    let mut v: Vec<usize> = Vec::new();
    let mut i: usize = 0;
    while i < size
        invariant
            i <= size,
            size == 0 || addr + (size - 1) * 8 <= usize::MAX,
            v@.len() == i,
            forall|j: int| 0 <= j < i ==> #[trigger] v@[j] == addr + j * 8,
        decreases size - i,
    {
        assert(addr + i * 8 <= addr + (size - 1) * 8) by (nonlinear_arith)
            requires
                i < size,
        ;
        v.push(addr + i * 8);
        i = i + 1;
    }
    v
}

/// What the debugger says about the address `address`. `section` is only looked at when
/// `module` is not empty, `label` only when `section` is not empty either,
/// and `plain_label` only when `string` is empty and `label` is looked at and
/// not empty; other fields may be left empty.
#[derive(Debug)]
pub struct AddressInfo {
    /// The address described.
    pub address: usize,
    /// The module that holds the address.
    pub module: String,
    /// The section of the module that holds the address.
    pub section: String,
    /// The nearest label at or below the address, with its distance.
    pub label: String,
    /// The string at the address.
    pub string: String,
    /// The label exactly at the address.
    pub plain_label: String,
    /// The pointer stored at the address, if it can be read.
    pub pointer: Option<usize>,
}

/// `needle` occurs in `hay`.
pub open spec fn has_substring(hay: Seq<char>, needle: Seq<char>) -> bool {
    exists|i: int| 0 <= i && i + needle.len() <= hay.len() && #[trigger] hay.subrange(i, i + needle.len()) == needle
}

/// Whether `needle` occurs in `hay` (`str::contains`).
pub fn contains_str(hay: &str, needle: &str) -> (res: bool)
    ensures
        res == has_substring(hay@, needle@),
{
    let h = str_chars(hay);
    let n = str_chars(needle);
    if n.len() > h.len() {
        return false;
    }
    let mut i: usize = 0;
    while i <= h.len() - n.len()
        invariant
            h@ == hay@,
            n@ == needle@,
            n@.len() <= h@.len(),
            i <= h@.len() - n@.len() + 1,
            forall|k: int| 0 <= k < i ==> #[trigger] h@.subrange(k, k + n@.len()) != n@,
        decreases h.len() - i,
    {
        let mut j: usize = 0;
        let mut same = true;
        while j < n.len()
            invariant
                h@ == hay@,
                n@ == needle@,
                i + n@.len() <= h@.len(),
                n@.len() <= h@.len(),
                h@.len() <= usize::MAX,
                j <= n@.len(),
                same == forall|m: int| 0 <= m < j ==> h@[i + m] == n@[m],
            decreases n.len() - j,
        {
            if h[i + j] != n[j] {
                same = false;
            }
            j = j + 1;
        }
        if same {
            assert(h@.subrange(i as int, i + n@.len()) =~= n@);
            return true;
        }
        assert(h@.subrange(i as int, i + n@.len()) != n@) by {
            let m = choose|m: int| 0 <= m < n@.len() && h@[i + m] != n@[m];
            assert(h@.subrange(i as int, i + n@.len())[m] == h@[i + m]);
        }
        i = i + 1;
    }
    assert forall|k: int| 0 <= k && k + needle@.len() <= hay@.len() implies #[trigger] hay@.subrange(k, k + needle@.len()) != needle@ by {
        assert(k < i);
    }
    false
}

/// The items joined with `sep` between them (`[String]::join`).
pub open spec fn spec_join(items: Seq<Seq<char>>, sep: Seq<char>) -> Seq<char>
    decreases items.len(),
{
    if items.len() == 0 {
        Seq::empty()
    } else if items.len() == 1 {
        items[0]
    } else {
        spec_join(items.drop_last(), sep) + sep + items.last()
    }
}

/// The label that describes the address: looked up only inside a module
/// section.
pub open spec fn spec_used_label(info: AddressInfo) -> Seq<char> {
    if info.module@.len() != 0 && info.section@.len() != 0 {
        info.label@
    } else {
        Seq::empty()
    }
}

/// The address lies in a code section: its section name holds `.text`.
pub open spec fn spec_is_text(info: AddressInfo) -> bool {
    info.module@.len() != 0 && info.section@.len() != 0 && has_substring(info.section@, ".text"@)
}

/// The parts of the description of an address, in order: its module
/// (with section and label when it is in a section), colour 3; the string
/// at the address in colour 4 unless the label already holds it; or,
/// without a string, the label exactly at the address in colour 5 when a
/// label was looked up and found.
pub open spec fn spec_infos(info: AddressInfo, palette: Palette) -> Seq<Seq<char>> {
    let module_part: Seq<Seq<char>> = if info.module@.len() == 0 {
        Seq::empty()
    } else if info.section@.len() == 0 {
        seq![spec_a(info.module@, palette.spec_color(3), ""@)]
    } else {
        seq![spec_a(info.module@ + ":"@ + info.section@ + " "@ + info.label@, palette.spec_color(3), ""@)]
    };
    if info.string@.len() != 0 {
        if !has_substring(spec_used_label(info), info.string@) {
            module_part.push(spec_a(info.string@, palette.spec_color(4), ""@))
        } else {
            module_part
        }
    } else if spec_used_label(info).len() != 0 && info.plain_label@.len() != 0 {
        module_part.push(spec_a(info.plain_label@, palette.spec_color(5), ""@))
    } else {
        module_part
    }
}

/// `out` followed by the description of `addr`: an arrow in the comment
/// colour when `out` is not empty, the address in sixteen hexadecimal digits
/// (linked to the dump view) in colour 8, and, when there is anything to say,
/// the parts of `spec_infos` separated by ` | ` inside ` (` and `)`, all
/// three in the comment colour.
pub open spec fn spec_describe(out: Seq<char>, addr: usize, info: AddressInfo, palette: Palette) -> Seq<char> {
    let comment = palette.comment@;
    let s0 = if out.len() > 0 { out + spec_a(" -> "@, comment, ""@) } else { out };
    let hex = spec_hex(addr as nat, 16, false);
    let s1 = s0 + spec_a(hex, palette.spec_color(8), "x64dbg://localhost/address64#"@ + hex);
    let joined = spec_join(spec_infos(info, palette), spec_a(" | "@, comment, ""@));
    if joined.len() > 0 {
        s1 + spec_a(" ("@, comment, ""@) + joined + spec_a(")"@, comment, ""@)
    } else {
        s1
    }
}

/// The pointer to follow from an address: the one stored there, unless it
/// could not be read, the address holds a string, or it lies in code.
pub open spec fn spec_follow(info: AddressInfo) -> Option<usize> {
    match info.pointer {
        None => None,
        Some(p) => if info.string@.len() != 0 || spec_is_text(info) {
            None
        } else {
            Some(p)
        },
    }
}

/// The line that `telescope_line` writes after `out` for the chain starting
/// at `addr` with `rcount` levels left, given what the debugger said about
/// each address of the chain, in order: with no level left the line ends
/// with ` ...`; otherwise the first address is described and, when its
/// pointer is to be followed, the line goes on with that pointer one level
/// down.
pub open spec fn spec_telescope_line(
    out: Seq<char>,
    addr: usize,
    rcount: nat,
    chain: Seq<AddressInfo>,
    palette: Palette,
) -> Seq<char>
    decreases rcount,
{
    if rcount == 0 {
        out + " ..."@
    } else if chain.len() == 0 {
        out
    } else {
        let described = spec_describe(out, addr, chain[0], palette);
        match spec_follow(chain[0]) {
            None => described,
            Some(p) => spec_telescope_line(described, p, (rcount - 1) as nat, chain.drop_first(), palette),
        }
    }
}

/// `chain` describes, in order, exactly the addresses that the line for
/// `addr` with `rcount` levels visits.
pub open spec fn spec_chain_complete(addr: usize, rcount: nat, chain: Seq<AddressInfo>) -> bool
    decreases rcount,
{
    if rcount == 0 {
        chain.len() == 0
    } else {
        &&& chain.len() >= 1
        &&& chain[0].address == addr
        &&& match spec_follow(chain[0]) {
            None => chain.len() == 1,
            Some(p) => spec_chain_complete(p, (rcount - 1) as nat, chain.drop_first()),
        }
    }
}

/// `chain` describes, in order, the first addresses that the line for
/// `addr` with `rcount` levels visits.
pub open spec fn spec_chain_prefix(addr: usize, rcount: nat, chain: Seq<AddressInfo>) -> bool
    decreases rcount,
{
    if chain.len() == 0 {
        true
    } else if rcount == 0 {
        false
    } else {
        &&& chain[0].address == addr
        &&& match spec_follow(chain[0]) {
            None => chain.len() == 1,
            Some(p) => spec_chain_prefix(p, (rcount - 1) as nat, chain.drop_first()),
        }
    }
}

/// The next address the debugger must be asked about to go on with the
/// chain, or `None` when the chain is complete.
pub open spec fn spec_next_query(addr: usize, rcount: nat, chain: Seq<AddressInfo>) -> Option<usize>
    decreases rcount,
{
    if rcount == 0 {
        None
    } else if chain.len() == 0 {
        Some(addr)
    } else {
        match spec_follow(chain[0]) {
            None => None,
            Some(p) => spec_next_query(p, (rcount - 1) as nat, chain.drop_first()),
        }
    }
}

/// Asking the debugger about the addresses that `telescope_next_query`
/// names, one after the other, builds a complete chain, and that after at
/// most `rcount` questions.
pub proof fn lemma_next_query(addr: usize, rcount: nat, chain: Seq<AddressInfo>, info: AddressInfo)
    requires
        spec_chain_prefix(addr, rcount, chain),
    ensures
        spec_next_query(addr, rcount, chain) is None <==> spec_chain_complete(addr, rcount, chain),
        spec_next_query(addr, rcount, chain) == Some(info.address) ==> spec_chain_prefix(
            addr,
            rcount,
            chain.push(info),
        ),
        chain.len() <= rcount,
    decreases rcount,
{
    if rcount > 0 && chain.len() > 0 {
        assert(chain.push(info)[0] == chain[0]);
        assert(chain.push(info).drop_first() =~= chain.drop_first().push(info));
        if let Some(p) = spec_follow(chain[0]) {
            lemma_next_query(p, (rcount - 1) as nat, chain.drop_first(), info);
            assert(spec_follow(chain.push(info)[0]) == Some(p));
            assert(spec_chain_prefix(addr, rcount, chain.push(info)) == spec_chain_prefix(
                p,
                (rcount - 1) as nat,
                chain.drop_first().push(info),
            ));
        }
    } else if rcount > 0 {
        assert(chain.push(info).drop_first() =~= Seq::<AddressInfo>::empty());
        assert(chain.push(info)[0] == info);
        if let Some(p) = spec_follow(info) {
            assert(spec_chain_prefix(p, (rcount - 1) as nat, Seq::<AddressInfo>::empty()));
        }
    }
}

/// A complete chain has at most `rcount` entries, one per address shown.
pub proof fn lemma_chain_length(addr: usize, rcount: nat, chain: Seq<AddressInfo>)
    requires
        spec_chain_complete(addr, rcount, chain),
    ensures
        chain.len() <= rcount,
        rcount > 0 ==> chain.len() >= 1,
    decreases rcount,
{
    if rcount > 0 {
        if let Some(p) = spec_follow(chain[0]) {
            lemma_chain_length(p, (rcount - 1) as nat, chain.drop_first());
        }
    }
}

/// Once an address is described, the line goes on exactly as the line of
/// the pointer stored there, one level down, over the rest of the answers:
/// with ` ...` when no level is left, otherwise with an arrow and the
/// pointer's own description, and so on. Where the pointer is not
/// followed, the line ends with the description.
pub proof fn lemma_telescope_line_step(
    out: Seq<char>,
    addr: usize,
    rcount: nat,
    chain: Seq<AddressInfo>,
    palette: Palette,
)
    requires
        rcount > 0,
        chain.len() > 0,
    ensures
        ({
            let described = spec_describe(out, addr, chain[0], palette);
            &&& spec_follow(chain[0]) matches Some(p) ==> spec_telescope_line(out, addr, rcount, chain, palette)
                == spec_telescope_line(described, p, (rcount - 1) as nat, chain.drop_first(), palette)
            &&& spec_follow(chain[0]) is None ==> spec_telescope_line(out, addr, rcount, chain, palette)
                == described
            &&& (spec_follow(chain[0]) is Some && rcount == 1) ==> spec_telescope_line(
                out,
                addr,
                rcount,
                chain,
                palette,
            ) == described + " ..."@
            &&& (spec_follow(chain[0]) is Some && rcount > 1 && chain.len() > 1) ==> (described + spec_a(
                " -> "@,
                palette.comment@,
                ""@,
            )).is_prefix_of(spec_telescope_line(out, addr, rcount, chain, palette))
        }),
{
    let described = spec_describe(out, addr, chain[0], palette);
    if let Some(p) = spec_follow(chain[0]) {
        if rcount > 1 && chain.len() > 1 {
            let rest = chain.drop_first();
            assert(rest[0] == chain[1]);
            reveal_strlit("</a>");
            let hex = spec_hex(addr as nat, 16, false);
            let s0 = if out.len() > 0 { out + spec_a(" -> "@, palette.comment@, ""@) } else { out };
            let link = spec_a(hex, palette.spec_color(8), "x64dbg://localhost/address64#"@ + hex);
            assert(link.len() > 0);
            assert(described.len() >= (s0 + link).len());
            let next = spec_describe(described, p, rest[0], palette);
            let arrowed = described + spec_a(" -> "@, palette.comment@, ""@);
            assert(next.subrange(0, arrowed.len() as int) =~= arrowed);
            let whole = spec_telescope_line(out, addr, rcount, chain, palette);
            assert(whole == spec_telescope_line(described, p, (rcount - 1) as nat, rest, palette));
            if let Some(q) = spec_follow(rest[0]) {
                lemma_telescope_line_extends(next, q, (rcount - 2) as nat, rest.drop_first(), palette);
                assert(whole == spec_telescope_line(next, q, (rcount - 2) as nat, rest.drop_first(), palette));
                assert(whole.subrange(0, arrowed.len() as int) =~= next.subrange(0, arrowed.len() as int));
            } else {
                assert(whole == next);
            }
        }
    }
}

/// The description of an address only adds to what is already written.
pub proof fn lemma_describe_extends(out: Seq<char>, addr: usize, info: AddressInfo, palette: Palette)
    ensures
        out.is_prefix_of(spec_describe(out, addr, info, palette)),
{
    let d = spec_describe(out, addr, info, palette);
    assert(d.subrange(0, out.len() as int) =~= out);
}

/// A telescope line only adds to what is already written: `out` is never
/// changed.
pub proof fn lemma_telescope_line_extends(
    out: Seq<char>,
    addr: usize,
    rcount: nat,
    chain: Seq<AddressInfo>,
    palette: Palette,
)
    ensures
        out.is_prefix_of(spec_telescope_line(out, addr, rcount, chain, palette)),
    decreases rcount,
{
    if rcount == 0 {
        assert((out + " ..."@).subrange(0, out.len() as int) =~= out);
    } else if chain.len() > 0 {
        let described = spec_describe(out, addr, chain[0], palette);
        lemma_describe_extends(out, addr, chain[0], palette);
        if let Some(p) = spec_follow(chain[0]) {
            lemma_telescope_line_extends(described, p, (rcount - 1) as nat, chain.drop_first(), palette);
            let l = spec_telescope_line(described, p, (rcount - 1) as nat, chain.drop_first(), palette);
            assert(l.subrange(0, out.len() as int) =~= described.subrange(0, out.len() as int));
        }
    }
}

/// The pointer to follow from an address (see `spec_follow`).
pub fn follow(info: &AddressInfo) -> (res: Option<usize>)
    ensures
        res == spec_follow(*info),
{
    match info.pointer {
        None => None,
        Some(p) => {
            let is_text = !info.module.as_str().is_empty() && !info.section.as_str().is_empty()
                && contains_str(info.section.as_str(), ".text");
            if !info.string.as_str().is_empty() || is_text {
                None
            } else {
                Some(p)
            }
        },
    }
}

/// The address the debugger must be asked about next to build the line for
/// `addr` with `rcount` levels, given the answers so far; `None` once they
/// are all there.
pub fn telescope_next_query(addr: usize, rcount: u32, chain: &Vec<AddressInfo>) -> (res: Option<usize>)
    ensures
        res == spec_next_query(addr, rcount as nat, chain@),
{
    let mut cur = addr;
    let mut r = rcount;
    let mut i: usize = 0;
    assert(chain@.skip(0) =~= chain@);
    while i < chain.len() && r > 0
        invariant
            i <= chain@.len(),
            r <= rcount,
            spec_next_query(addr, rcount as nat, chain@) == spec_next_query(cur, r as nat, chain@.skip(i as int)),
        decreases r,
    {
        proof {
            assert(chain@.skip(i as int)[0] == chain@[i as int]);
            assert(chain@.skip(i as int).drop_first() =~= chain@.skip(i + 1));
        }
        match follow(&chain[i]) {
            None => return None,
            Some(p) => {
                cur = p;
                r = r - 1;
                i = i + 1;
            },
        }
    }
    if r == 0 {
        None
    } else {
        assert(chain@.skip(i as int).len() == 0);
        Some(cur)
    }
}

/// Writes the telescope line of `addr` with `rcount` levels after `out`,
/// given what the debugger said about each address on the way (in the
/// order `telescope_next_query` asks for them): each address in sixteen
/// hexadecimal digits with what is known of it, joined by arrows; the
/// pointer stored at an address is followed unless it could not be read,
/// the address holds a string or lies in code; ` ...` ends a line that ran
/// out of levels.
pub fn telescope_line(
    addr: usize,
    rcount: u32,
    chain: &Vec<AddressInfo>,
    palette: &Palette,
    out: &mut String,
)
    requires
        palette.wf(),
    ensures
        final(out)@ == spec_telescope_line(old(out)@, addr, rcount as nat, chain@, *palette),
{
    let ghost target = spec_telescope_line(out@, addr, rcount as nat, chain@, *palette);
    let mut cur = addr;
    let mut r = rcount;
    let mut i: usize = 0;
    assert(chain@.skip(0) =~= chain@);
    loop
        invariant
            i <= chain@.len(),
            palette.wf(),
            target == spec_telescope_line(old(out)@, addr, rcount as nat, chain@, *palette),
            target == spec_telescope_line(out@, cur, r as nat, chain@.skip(i as int), *palette),
        decreases r,
    {
        if r == 0 {
            out.append(" ...");
            return;
        }
        if i >= chain.len() {
            assert(chain@.skip(i as int).len() == 0);
            return;
        }
        let ghost rest = chain@.skip(i as int);
        proof {
            assert(rest[0] == chain@[i as int]);
            assert(rest.drop_first() =~= chain@.skip(i + 1));
        }
        let next = describe(cur, &chain[i], palette, out);
        match next {
            None => {
                return;
            },
            Some(p) => {
                cur = p;
                r = r - 1;
                i = i + 1;
            },
        }
    }
}

/// Writes the description of `addr` after `out` and gives the pointer to
/// follow from it.
fn describe(addr: usize, info: &AddressInfo, palette: &Palette, out: &mut String) -> (res: Option<usize>)
    requires
        palette.wf(),
    ensures
        final(out)@ == spec_describe(old(out)@, addr, *info, *palette),
        res == spec_follow(*info),
{
    let comment = palette.get_color_comment();
    let ghost old_out = out@;
    if !out.as_str().is_empty() {
        let arrow = a(" -> ", comment, "");
        out.append(arrow.as_str());
    }
    let hex = format_hex(addr as u64, 16, false);
    let mut href = String::from_str("x64dbg://localhost/address64#");
    href.append(hex.as_str());
    let addr_link = a(hex.as_str(), palette.get_color(8), href.as_str());
    out.append(addr_link.as_str());
    let ghost s1 = out@;
    let mut infos: Vec<String> = Vec::new();
    let mut is_text = false;
    let mut label = String::new();
    if !info.module.as_str().is_empty() {
        if !info.section.as_str().is_empty() {
            is_text = contains_str(info.section.as_str(), ".text");
            label = info.label.clone();
            let mut text = info.module.clone();
            text.append(":");
            text.append(info.section.as_str());
            text.append(" ");
            text.append(info.label.as_str());
            infos.push(a(text.as_str(), palette.get_color(3), ""));
        } else {
            infos.push(a(info.module.as_str(), palette.get_color(3), ""));
        }
    }
    assert(label@ == spec_used_label(*info));
    assert(is_text == spec_is_text(*info));
    let ghost module_part = infos@.map_values(|s: String| s@);
    let is_string = !info.string.as_str().is_empty();
    if is_string {
        if !contains_str(label.as_str(), info.string.as_str()) {
            infos.push(a(info.string.as_str(), palette.get_color(4), ""));
            assert(infos@.map_values(|s: String| s@) =~= module_part.push(infos@.last()@));
        }
    } else if !label.as_str().is_empty() {
        if !info.plain_label.as_str().is_empty() {
            infos.push(a(info.plain_label.as_str(), palette.get_color(5), ""));
            assert(infos@.map_values(|s: String| s@) =~= module_part.push(infos@.last()@));
        }
    }
    assert(infos@.map_values(|s: String| s@) =~= spec_infos(*info, *palette));
    let sep = a(" | ", comment, "");
    let joined = join_strings(&infos, sep.as_str());
    if !joined.as_str().is_empty() {
        let open = a(" (", comment, "");
        let close = a(")", comment, "");
        out.append(open.as_str());
        out.append(joined.as_str());
        out.append(close.as_str());
    }
    assert(out@ =~= spec_describe(old_out, addr, *info, *palette));
    match info.pointer {
        None => None,
        Some(ptr) => {
            if is_string || is_text {
                None
            } else {
                Some(ptr)
            }
        },
    }
}

/// The strings joined with `sep` between them.
pub fn join_strings(items: &Vec<String>, sep: &str) -> (res: String)
    ensures
        res@ == spec_join(items@.map_values(|s: String| s@), sep@),
{
    let ghost views = items@.map_values(|s: String| s@);
    let mut r = String::new();
    let mut i: usize = 0;
    while i < items.len()
        invariant
            i <= items@.len(),
            views == items@.map_values(|s: String| s@),
            r@ == spec_join(views.take(i as int), sep@),
        decreases items.len() - i,
    {
        if i > 0 {
            r.append(sep);
        }
        r.append(items[i].as_str());
        proof {
            let t = views.take(i + 1);
            assert(t.drop_last() =~= views.take(i as int));
            assert(t.last() == items@[i as int]@);
            if i == 0 {
                assert(t[0] == items@[0]@);
            }
        }
        i = i + 1;
    }
    assert(views.take(i as int) =~= views);
    r
}

/// What is followed from an address is exactly the pointer read there:
/// whenever the pointer could be read (whatever its value, 0 included),
/// the address holds no string and its section name has no `.text` in it,
/// the pointer read is followed, the debugger is next asked about that
/// pointer, and the line goes on with the pointer's own line one level
/// down; outside any module only a string stops it. Nothing is followed
/// when the pointer could not be read, when the address holds a string, or
/// when it lies in a `.text` section of a module.
pub proof fn lemma_follow_reads_pointer(
    info: AddressInfo,
    out: Seq<char>,
    addr: usize,
    rcount: nat,
    rest: Seq<AddressInfo>,
    palette: Palette,
)
    ensures
        info.pointer is None ==> spec_follow(info) is None,
        info.string@.len() != 0 ==> spec_follow(info) is None,
        (info.module@.len() != 0 && exists|i: int|
            0 <= i && i + 5 <= info.section@.len() && #[trigger] info.section@.subrange(i, i + 5) == ".text"@)
            ==> spec_follow(info) is None,
        info.module@.len() == 0 && info.string@.len() == 0 ==> spec_follow(info) == info.pointer,
        ({
            let no_text = forall|i: int|
                0 <= i && i + 5 <= info.section@.len() ==> #[trigger] info.section@.subrange(i, i + 5)
                    != ".text"@;
            info.pointer is Some && info.string@.len() == 0 && no_text ==> {
                &&& spec_follow(info) == info.pointer
                &&& rcount > 1 ==> spec_next_query(addr, rcount, seq![info]) == info.pointer
                &&& rcount > 0 ==> spec_telescope_line(out, addr, rcount, seq![info] + rest, palette)
                    == spec_telescope_line(
                    spec_describe(out, addr, info, palette),
                    info.pointer.unwrap(),
                    (rcount - 1) as nat,
                    rest,
                    palette,
                )
            }
        }),
{
    reveal_strlit(".text");
    let chain = seq![info] + rest;
    assert(chain[0] == info);
    assert(chain.drop_first() =~= rest);
    assert(seq![info][0] == info);
    assert(seq![info].drop_first() =~= Seq::<AddressInfo>::empty());
    if info.module@.len() != 0 && exists|i: int|
        0 <= i && i + 5 <= info.section@.len() && #[trigger] info.section@.subrange(i, i + 5) == ".text"@ {
        let i = choose|i: int|
            0 <= i && i + 5 <= info.section@.len() && #[trigger] info.section@.subrange(i, i + 5) == ".text"@;
        assert(info.section@.len() != 0);
        assert(".text"@.len() == 5);
        assert(info.section@.subrange(i, i + ".text"@.len()) == ".text"@);
        assert(has_substring(info.section@, ".text"@));
    }
    if forall|i: int|
        0 <= i && i + 5 <= info.section@.len() ==> #[trigger] info.section@.subrange(i, i + 5) != ".text"@ {
        assert(".text"@.len() == 5);
        assert(!has_substring(info.section@, ".text"@));
        assert(!spec_is_text(info));
        if info.pointer is Some && info.string@.len() == 0 {
            let p = info.pointer.unwrap();
            assert(spec_follow(info) == Some(p));
            if rcount > 1 {
                assert(spec_next_query(p, (rcount - 1) as nat, Seq::<AddressInfo>::empty()) == Some(p));
                assert(spec_next_query(addr, rcount, seq![info]) == spec_next_query(
                    p,
                    (rcount - 1) as nat,
                    seq![info].drop_first(),
                ));
            }
            if rcount > 0 {
                assert(spec_telescope_line(out, addr, rcount, chain, palette) == spec_telescope_line(
                    spec_describe(out, addr, chain[0], palette),
                    p,
                    (rcount - 1) as nat,
                    chain.drop_first(),
                    palette,
                ));
            }
        }
    }
}

/// Joining items that are not empty gives an empty text exactly when there
/// is no item.
proof fn lemma_join_empty(items: Seq<Seq<char>>, sep: Seq<char>)
    requires
        forall|i: int| 0 <= i < items.len() ==> #[trigger] items[i].len() > 0,
    ensures
        spec_join(items, sep).len() == 0 <==> items.len() == 0,
    decreases items.len(),
{
    if items.len() > 1 {
        lemma_join_empty(items.drop_last(), sep);
        assert(items.last() == items[items.len() - 1]);
    } else if items.len() == 1 {
        assert(items[0].len() > 0);
    }
}

/// The description of an address: after what was written (and an arrow in
/// the comment colour when something was), the address in sixteen
/// hexadecimal digits that parse back to the address, in colour 8 and
/// linked to the dump view; then a part in brackets exactly when the
/// address lies in a module or holds a string.
pub proof fn lemma_describe_shape(out: Seq<char>, addr: usize, info: AddressInfo, palette: Palette)
    ensures
        ({
            let d = spec_describe(out, addr, info, palette);
            let hex = spec_hex(addr as nat, 16, false);
            let lead = if out.len() > 0 { out + spec_a(" -> "@, palette.comment@, ""@) } else { out };
            let link = spec_a(hex, palette.spec_color(8), "x64dbg://localhost/address64#"@ + hex);
            &&& (lead + link).is_prefix_of(d)
            &&& spec_from_hex(hex) == Ok::<usize, HexError>(addr)
            &&& (d.len() > (lead + link).len() <==> (info.module@.len() != 0 || info.string@.len() != 0))
        }),
{
    reveal_strlit("</a>");
    let d = spec_describe(out, addr, info, palette);
    let hex = spec_hex(addr as nat, 16, false);
    let lead = if out.len() > 0 { out + spec_a(" -> "@, palette.comment@, ""@) } else { out };
    let link = spec_a(hex, palette.spec_color(8), "x64dbg://localhost/address64#"@ + hex);
    let s1 = lead + link;
    assert(d.subrange(0, s1.len() as int) =~= s1);
    lemma_hex_round_trip(addr as u64, 16, false);
    let infos = spec_infos(info, palette);
    assert forall|i: int| 0 <= i < infos.len() implies #[trigger] infos[i].len() > 0 by {
    }
    let sep = spec_a(" | "@, palette.comment@, ""@);
    lemma_join_empty(infos, sep);
    if info.module@.len() == 0 && info.string@.len() != 0 {
        assert(spec_used_label(info) =~= Seq::<char>::empty());
        assert(!has_substring(spec_used_label(info), info.string@));
    }
    if info.module@.len() != 0 || info.string@.len() != 0 {
        assert(infos.len() > 0);
    } else {
        assert(infos.len() == 0);
    }
}

} // verus!
