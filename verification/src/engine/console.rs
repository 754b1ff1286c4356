//! Reading the output of a Windows console process.
//!
//! robocopy writes in the console code page, and since it is launched with
//! `CREATE_NO_WINDOW` (no console to inherit) that is the OEM code page (850
//! on Western European Windows), not UTF-8. Reading it as strict UTF-8 fails
//! on the first non-ASCII character, which is common: the header includes the
//! localized date ("mi\u{e9}rcoles, 23 de septiembre...").

use vstd::prelude::*;
use vstd::utf8::*;

verus! {

/// Code page 850, bytes 0x80 to 0xFF (the lower half is ASCII).
pub const CP850_HIGH: [char; 128] = [
    '\u{C7}', '\u{FC}', '\u{E9}', '\u{E2}', '\u{E4}', '\u{E0}', '\u{E5}', '\u{E7}', '\u{EA}', '\u{EB}', '\u{E8}', '\u{EF}', '\u{EE}', '\u{EC}', '\u{C4}', '\u{C5}',
    '\u{C9}', '\u{E6}', '\u{C6}', '\u{F4}', '\u{F6}', '\u{F2}', '\u{FB}', '\u{F9}', '\u{FF}', '\u{D6}', '\u{DC}', '\u{F8}', '\u{A3}', '\u{D8}', '\u{D7}', '\u{192}',
    '\u{E1}', '\u{ED}', '\u{F3}', '\u{FA}', '\u{F1}', '\u{D1}', '\u{AA}', '\u{BA}', '\u{BF}', '\u{AE}', '\u{AC}', '\u{BD}', '\u{BC}', '\u{A1}', '\u{AB}', '\u{BB}',
    '\u{2591}', '\u{2592}', '\u{2593}', '\u{2502}', '\u{2524}', '\u{C1}', '\u{C2}', '\u{C0}', '\u{A9}', '\u{2563}', '\u{2551}', '\u{2557}', '\u{255D}', '\u{A2}', '\u{A5}', '\u{2510}',
    '\u{2514}', '\u{2534}', '\u{252C}', '\u{251C}', '\u{2500}', '\u{253C}', '\u{E3}', '\u{C3}', '\u{255A}', '\u{2554}', '\u{2569}', '\u{2566}', '\u{2560}', '\u{2550}', '\u{256C}', '\u{A4}',
    '\u{F0}', '\u{D0}', '\u{CA}', '\u{CB}', '\u{C8}', '\u{131}', '\u{CD}', '\u{CE}', '\u{CF}', '\u{2518}', '\u{250C}', '\u{2588}', '\u{2584}', '\u{A6}', '\u{CC}', '\u{2580}',
    '\u{D3}', '\u{DF}', '\u{D4}', '\u{D2}', '\u{F5}', '\u{D5}', '\u{B5}', '\u{FE}', '\u{DE}', '\u{DA}', '\u{DB}', '\u{D9}', '\u{FD}', '\u{DD}', '\u{AF}', '\u{B4}',
    '\u{AD}', '\u{B1}', '\u{2017}', '\u{BE}', '\u{B6}', '\u{A7}', '\u{F7}', '\u{B8}', '\u{B0}', '\u{A8}', '\u{B7}', '\u{B9}', '\u{B3}', '\u{B2}', '\u{25A0}', '\u{A0}',
];

/// The character that code page 850 gives a byte.
pub open spec fn cp850_char(b: u8) -> char {
    if b < 128 {
        b as char
    } else {
        CP850_HIGH@[b - 128]
    }
}

/// A line read in the OEM code page: one character per byte.
pub open spec fn decode_oem(bytes: Seq<u8>) -> Seq<char> {
    bytes.map_values(|b: u8| cp850_char(b))
}

/// The line without its trailing `\r` and `\n` bytes.
pub open spec fn spec_trim_eol(bytes: Seq<u8>) -> Seq<u8>
    decreases bytes.len(),
{
    if bytes.len() > 0 && (bytes.last() == 10u8 || bytes.last() == 13u8) {
        spec_trim_eol(bytes.drop_last())
    } else {
        bytes
    }
}

/// `std::str::from_utf8`: `Some` exactly when the bytes are well-formed UTF-8,
/// and then the characters they encode (std's documentation of `from_utf8`).
#[verifier::external_body]
fn utf8_to_string(bytes: &[u8]) -> (r: Option<String>)
    ensures
        r is Some <==> valid_utf8(bytes@),
        r matches Some(s) ==> s@ == decode_utf8(bytes@),
{
    match std::str::from_utf8(bytes) {
        Ok(s) => Some(s.to_string()),
        Err(_) => None,
    }
}

fn cp850_of(b: u8) -> (c: char)
    ensures
        c == cp850_char(b),
{
    if b < 128 {
        b as char
    } else {
        CP850_HIGH[(b - 128) as usize]
    }
}

/// Decodes a line in code page 850, the OEM code page of Western European
/// Windows: one character per byte.
pub fn decode_oem_bytes(bytes: &[u8]) -> (s: String)
    ensures
        s@ == decode_oem(bytes@),
{
    let mut s = String::new();
    let mut i: usize = 0;
    while i < bytes.len()
        invariant
            i <= bytes@.len(),
            s@ == decode_oem(bytes@.subrange(0, i as int)),
        decreases bytes.len() - i,
    {
        let c = cp850_of(bytes[i]);
        crate::text::string_push(&mut s, c);
        assert(decode_oem(bytes@.subrange(0, i + 1)) =~= decode_oem(bytes@.subrange(0, i as int)).push(c));
        i += 1;
    }
    assert(bytes@.subrange(0, bytes@.len() as int) =~= bytes@);
    s
}

/// Decodes a line as UTF-8 if valid (console in code page 65001, or plain
/// ASCII), otherwise with `oem`, the decoder of the system's OEM code page.
/// Trying UTF-8 first avoids mangling accented paths when the output really
/// is UTF-8.
pub fn decode_line_with<F: Fn(&[u8]) -> String>(bytes: &[u8], oem: &F) -> (s: String)
    requires
        forall|b: &[u8]| oem.requires((b,)),
    ensures
        valid_utf8(bytes@) ==> s@ == decode_utf8(bytes@),
        !valid_utf8(bytes@) ==> oem.ensures((bytes,), s),
{
    match utf8_to_string(bytes) {
        Some(s) => s,
        None => oem(bytes),
    }
}

/// Decodes a line as UTF-8 if valid, otherwise in code page 850 (the OEM
/// code page of western European Windows), whatever the system's OEM code
/// page is; `decode_line_with` takes the system's decoder instead.
pub fn decode_line(bytes: &[u8]) -> (s: String)
    ensures
        valid_utf8(bytes@) ==> s@ == decode_utf8(bytes@),
        !valid_utf8(bytes@) ==> s@ == decode_oem(bytes@),
{
    match utf8_to_string(bytes) {
        Some(s) => s,
        None => decode_oem_bytes(bytes),
    }
}

/// Drops the line terminator (any run of `\r` and `\n` at the end).
pub fn trim_eol(bytes: &[u8]) -> (r: &[u8])
    ensures
        r@ == spec_trim_eol(bytes@),
{
    let mut end = bytes.len();
    assert(bytes@.subrange(0, end as int) =~= bytes@);
    while end > 0 && (bytes[end - 1] == 10u8 || bytes[end - 1] == 13u8)
        invariant
            end <= bytes@.len(),
            spec_trim_eol(bytes@.subrange(0, end as int)) == spec_trim_eol(bytes@),
        decreases end,
    {
        assert(bytes@.subrange(0, end as int).drop_last() =~= bytes@.subrange(0, end - 1));
        end -= 1;
    }
    &bytes[0..end]
}

} // verus!
