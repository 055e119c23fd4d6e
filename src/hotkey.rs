//! Two-letter hotkey codes and their integer form: the two ASCII bytes of the
//! code, read little-endian.
use vstd::prelude::*;
use vstd::string::StringSliceAdditionalSpecFns;

verus! {

/// The integer form of a two-byte code: first byte low, second byte high.
pub open spec fn code_value(b0: u8, b1: u8) -> int {
    b0 + 256 * b1
}

/// The integer form of the hotkey code `s`, or `usize::MAX` when `s` is not
/// exactly two bytes long.
pub fn hotkey_str2u16(s: &str) -> (r: usize)
    ensures
        s.spec_bytes().len() != 2 ==> r == usize::MAX,
        s.spec_bytes().len() == 2 ==> r == code_value(s.spec_bytes()[0], s.spec_bytes()[1]),
{
    let buf = s.as_bytes();
    if buf.len() != 2 {
        return usize::MAX;
    }
    buf[0] as usize + 256 * buf[1] as usize
}

/// Relies on `String::from_utf16_lossy`: a code unit below 0xD800 is no
/// surrogate, so each one decodes to the character of that value.
#[verifier::external_body]
fn string_from_utf16(units: &Vec<u16>) -> (r: String)
    requires
        forall|i: int| 0 <= i < units@.len() ==> units@[i] < 0xD800,
    ensures
        r@.len() == units@.len(),
        forall|i: int| 0 <= i < units@.len() ==> r@[i] as u32 == units@[i],
{
    String::from_utf16_lossy(units)
}

/// The hotkey code of an integer form: the characters of its low byte and of
/// its next byte.
pub fn int2hotkey_str(u: usize) -> (r: String)
    ensures
        r@.len() == 2,
        r@[0] as u32 == u % 256,
        r@[1] as u32 == (u / 256) % 256,
{
    let b0 = (u % 256) as u16;
    let b1 = ((u / 256) % 256) as u16;
    let units: Vec<u16> = vec![b0, b1];
    string_from_utf16(&units)
}

} // verus!
