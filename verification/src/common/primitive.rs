//! Strings, characters and NUL-terminated buffers.
use vstd::prelude::*;
use vstd::slice::slice_subrange;
use vstd::string::StringSliceAdditionalSpecFns;
use vstd::utf8::{valid_utf8, decode_utf8, encode_utf8, encode_scalar, encode_utf8_valid_utf8, encode_utf8_decode_utf8};

verus! {

/// Appends one character to a string (`String::push`).
#[verifier::external_body]
pub(crate) fn push_char(s: &mut String, c: char)
    ensures
        final(s)@ == old(s)@.push(c),
{
    s.push(c);
}

/// The characters of a string slice, in order.
pub fn str_chars(s: &str) -> (res: Vec<char>)
    ensures
        res@ == s@,
{
    let mut res: Vec<char> = Vec::new();
    for c in it: s.chars()
        invariant
            res@ == it.seq().take(it.index() as int),
    {
        res.push(c);
    }
    res
}

/// The bytes of `s` followed by a NUL, as C functions expect a string.
pub fn str_to_vec(s: &str) -> (res: Vec<u8>)
    ensures
        res@ == s.spec_bytes().push(0),
{
    let mut v = s.as_bytes_vec();
    v.push(0);
    v
}

/// `String::from_utf8_lossy` of `bytes`.
pub uninterp spec fn lossy_utf8(bytes: Seq<u8>) -> Seq<char>;

/// Decodes bytes as UTF-8, putting U+FFFD in place of invalid sequences
/// (`String::from_utf8_lossy`): valid UTF-8 comes out as the characters it
/// encodes.
#[verifier::external_body]
pub(crate) fn utf8_lossy(bytes: &[u8]) -> (res: String)
    ensures
        res@ == lossy_utf8(bytes@),
        valid_utf8(bytes@) ==> res@ == decode_utf8(bytes@),
{
    String::from_utf8_lossy(bytes).into_owned()
}

/// The bytes of `v` before its first NUL.
pub open spec fn until_nul(v: Seq<u8>) -> Seq<u8> {
    let k = choose|k: int| 0 <= k < v.len() && v[k] == 0 && forall|j: int| 0 <= j < k ==> v[j] != 0;
    v.take(k)
}

/// The string in a NUL-terminated buffer that the debugger filled,
/// decoded as UTF-8 with replacement of invalid sequences.
pub fn vec_to_string(v: &[u8]) -> (res: String)
    requires
        v@.contains(0),
    ensures
        res@ == lossy_utf8(until_nul(v@)),
        valid_utf8(until_nul(v@)) ==> res@ == decode_utf8(until_nul(v@)),
{
    let mut k: usize = 0;
    while v[k] != 0
        invariant
            k < v@.len(),
            v@.contains(0),
            forall|j: int| 0 <= j < k ==> v@[j] != 0,
            exists|j: int| k <= j < v@.len() && v@[j] == 0,
        decreases v@.len() - k,
    {
        k = k + 1;
    }
    proof {
        let c = choose|c: int| 0 <= c < v@.len() && v@[c] == 0 && forall|j: int| 0 <= j < c ==> v@[j] != 0;
        assert(0 <= k < v@.len() && v@[k as int] == 0 && forall|j: int| 0 <= j < k ==> v@[j] != 0);
        if c < k {
            assert(v@[c] != 0);
        }
        if k < c {
            assert(v@[k as int] != 0);
        }
        assert(until_nul(v@) == v@.take(k as int));
    }
    let prefix = slice_subrange(v, 0, k);
    assert(prefix@ =~= v@.take(k as int));
    utf8_lossy(prefix)
}

proof fn lemma_encode_scalar_nonzero(v: u32)
    requires
        v != 0,
        vstd::utf8::is_scalar(v),
    ensures
        !encode_scalar(v).contains(0u8),
{
    let e = encode_scalar(v);
    if vstd::utf8::has_width_1_encoding(v) {
        assert((v & 0x7F) as u8 != 0) by (bit_vector)
            requires
                v != 0,
                v <= 0x7F,
        ;
        assert(e[0] != 0);
    } else {
        assert(forall|x: u32| #![auto] (0xC0u8 | ((x >> 6) & 0x1F) as u8) != 0) by (bit_vector);
        assert(forall|x: u32| #![auto] (0xE0u8 | ((x >> 12) & 0x0F) as u8) != 0) by (bit_vector);
        assert(forall|x: u32| #![auto] (0xF0u8 | ((x >> 18) & 0x7) as u8) != 0) by (bit_vector);
        assert(forall|x: u32| #![auto] (0x80u8 | (x & 0x3F) as u8) != 0) by (bit_vector);
        assert(forall|x: u32| #![auto] (0x80u8 | ((x >> 6) & 0x3F) as u8) != 0) by (bit_vector);
        assert(forall|x: u32| #![auto] (0x80u8 | ((x >> 12) & 0x3F) as u8) != 0) by (bit_vector);
    }
    assert forall|i: int| 0 <= i < e.len() implies e[i] != 0 by {}
}

proof fn lemma_encode_has_no_nul(s: Seq<char>)
    requires
        !s.contains('\0'),
    ensures
        !encode_utf8(s).contains(0u8),
    decreases s.len(),
{
    if s.len() > 0 {
        assert(s[0] != '\0');
        assert(!s.drop_first().contains('\0')) by {
            if s.drop_first().contains('\0') {
                let i = choose|i: int| 0 <= i < s.drop_first().len() && s.drop_first()[i] == '\0';
                assert(s[i + 1] == '\0');
            }
        }
        lemma_encode_has_no_nul(s.drop_first());
        vstd::utf8::char_is_scalar(s[0]);
        vstd::utf8::char_u32_cast(s[0], s[0] as u32);
        if s[0] as u32 == 0 {
            assert((0u32 as char) == '\0');
        }
        assert(s[0] as u32 != 0);
        lemma_encode_scalar_nonzero(s[0] as u32);
        let h = encode_scalar(s[0] as u32);
        let t = encode_utf8(s.drop_first());
        assert forall|i: int| 0 <= i < (h + t).len() implies (h + t)[i] != 0 by {
            if i < h.len() {
                assert((h + t)[i] == h[i]);
            } else {
                assert((h + t)[i] == t[i - h.len()]);
            }
        }
    }
}

/// A string without NUL comes back unchanged from the buffer `str_to_vec`
/// makes of it: `vec_to_string(&str_to_vec(s)) == s`.
pub proof fn lemma_c_string_round_trip(s: Seq<char>)
    requires
        !s.contains('\0'),
    ensures
        ({
            let v = encode_utf8(s).push(0);
            &&& v.contains(0u8)
            &&& until_nul(v) == encode_utf8(s)
            &&& valid_utf8(until_nul(v))
            &&& decode_utf8(until_nul(v)) == s
        }),
{
    let e = encode_utf8(s);
    let v = e.push(0);
    lemma_encode_has_no_nul(s);
    assert(v[e.len() as int] == 0);
    let k = choose|k: int| 0 <= k < v.len() && v[k] == 0 && forall|j: int| 0 <= j < k ==> v[j] != 0;
    assert(0 <= e.len() < v.len() && v[e.len() as int] == 0 && forall|j: int| 0 <= j < e.len() ==> v[j] != 0) by {
        assert forall|j: int| 0 <= j < e.len() implies v[j] != 0 by {
            assert(v[j] == e[j]);
        }
    }
    if k < e.len() {
        assert(v[k] == e[k]);
    }
    if k > e.len() {
        assert(v[e.len() as int] != 0);
    }
    assert(v.take(e.len() as int) =~= e);
    encode_utf8_valid_utf8(s);
    encode_utf8_decode_utf8(s);
}

} // verus!
