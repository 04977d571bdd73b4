use vstd::prelude::*;
use vstd::utf8::valid_utf8;

verus! {

/// The text that std decodes from UTF-16 code units, or `None` where the units
/// are not valid UTF-16 (an unpaired surrogate).
pub uninterp spec fn utf16_text(units: Seq<u16>) -> Option<Seq<char>>;

/// Relies on `char::decode_utf16`: the characters the units decode to, and
/// `None` exactly where some unit is an unpaired surrogate.
#[verifier::external_body]
fn decode_utf16(units: &[u16]) -> (r: Option<Vec<char>>)
    ensures
        r is None <==> utf16_text(units@) is None,
        r is Some ==> utf16_text(units@) == Some(r->Some_0@),
{
    char::decode_utf16(units.iter().copied()).collect::<Result<Vec<char>, _>>().ok()
}

/// Relies on `String`'s `FromIterator<char>`: the characters in order.
#[verifier::external_body]
fn string_of(chars: &Vec<char>) -> (r: String)
    ensures
        r@ == chars@,
{
    chars.iter().collect()
}

/// Relies on `std::str::from_utf8`: it succeeds exactly on valid UTF-8.
#[verifier::external_body]
pub(crate) fn is_utf8(bytes: &[u8]) -> (r: bool)
    ensures
        r == valid_utf8(bytes@),
{
    std::str::from_utf8(bytes).is_ok()
}

/// The 16-bit code unit made of two bytes, the first being the low one.
pub open spec fn unit_of(lo: u8, hi: u8) -> u16 {
    (lo as int + 256 * hi as int) as u16
}

/// The bytes read as consecutive little-endian 16-bit code units.
pub open spec fn code_units(bytes: Seq<u8>) -> Seq<u16> {
    Seq::new(bytes.len() / 2, |i: int| unit_of(bytes[2 * i], bytes[2 * i + 1]))
}

/// A character that takes at most two bytes in UTF-8 (below U+0800).
pub open spec fn short_char(c: char) -> bool {
    (c as u32) < 0x800
}

/// What best-effort recovery makes of bytes that are not UTF-8: the bytes are
/// read as UTF-16, and every character that would take more than two bytes in
/// UTF-8 is dropped. `None` where the length is zero or odd, or the code units
/// are not valid UTF-16.
pub open spec fn recovered_text(bytes: Seq<u8>) -> Option<Seq<char>> {
    if bytes.len() == 0 || bytes.len() % 2 == 1 {
        None
    } else {
        match utf16_text(code_units(bytes)) {
            None => None,
            Some(t) => Some(t.filter(|c: char| short_char(c))),
        }
    }
}

/// Recovers text from bytes that may be UTF-16 encoded, dropping every
/// character that takes more than two bytes in UTF-8.
pub fn read_utf16(bytes: &[u8]) -> (r: Option<String>)
    ensures
        r is None <==> recovered_text(bytes@) is None,
        r is Some ==> recovered_text(bytes@) == Some(r->Some_0@),
        r is Some ==> forall|i: int| 0 <= i < r->Some_0@.len() ==> short_char(#[trigger] r->Some_0@[i]),
{
    let n = bytes.len();
    if n == 0 || n % 2 == 1 {
        return None;
    }
    let mut units: Vec<u16> = Vec::new();
    let mut i: usize = 0;
    while i < n / 2
        invariant
            n == bytes@.len(),
            n % 2 == 0,
            i <= n / 2,
            units@ == code_units(bytes@).subrange(0, i as int),
        decreases n / 2 - i,
    {
        let lo = bytes[2 * i];
        let hi = bytes[2 * i + 1];
        let u: u16 = (lo as u16) + (hi as u16) * 256;
        assert(code_units(bytes@).subrange(0, i + 1) =~= units@.push(u));
        units.push(u);
        i = i + 1;
    }
    assert(units@ =~= code_units(bytes@));
    let chars = match decode_utf16(units.as_slice()) {
        None => return None,
        Some(c) => c,
    };
    let mut kept: Vec<char> = Vec::new();
    let mut j: usize = 0;
    while j < chars.len()
        invariant
            j <= chars@.len(),
            kept@ == chars@.subrange(0, j as int).filter(|c: char| short_char(c)),
            forall|i: int| 0 <= i < kept@.len() ==> short_char(#[trigger] kept@[i]),
        decreases chars@.len() - j,
    {
        let c = chars[j];
        proof {
            chars@.subrange(0, j as int).lemma_filter_push(c, |c: char| short_char(c));
            assert(chars@.subrange(0, j + 1) =~= chars@.subrange(0, j as int).push(c));
        }
        if (c as u32) < 0x800 {
            kept.push(c);
        }
        j = j + 1;
    }
    assert(chars@.subrange(0, chars@.len() as int) =~= chars@);
    Some(string_of(&kept))
}

} // verus!
