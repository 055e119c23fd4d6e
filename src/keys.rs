//! The characters that name hotkeys in stored settings, and the modifier
//! sets and virtual-key codes they stand for.
//!
//! A modifier character is `S` (Shift+Ctrl), `A` (Alt+Ctrl) or `N` (none).
//! A key character is an upper-case letter, a digit, or one of the
//! punctuation keys of the US layout.
use vstd::prelude::*;

use crate::property::digit_chars;

verus! {

/// The Alt modifier bit.
pub const MOD_ALT: u32 = 0x1;

/// The Ctrl modifier bit.
pub const MOD_CONTROL: u32 = 0x2;

/// The Shift modifier bit.
pub const MOD_SHIFT: u32 = 0x4;

/// Virtual-key code of the `0` key; the digits follow it.
pub const VK_0: u16 = 0x30;

/// Virtual-key code of the `A` key; the letters follow it.
pub const VK_A: u16 = 0x41;

pub open spec fn letters() -> Seq<char> {
    seq![
        'A', 'B', 'C', 'D', 'E', 'F', 'G', 'H', 'I', 'J', 'K', 'L', 'M', 'N', 'O', 'P', 'Q', 'R', 'S',
        'T', 'U', 'V', 'W', 'X', 'Y', 'Z',
    ]
}

/// The characters that name punctuation keys.
pub open spec fn punct_chars() -> Seq<char> {
    seq!['!', '`', '-', '=', '[', ']', '\\', ';', '\'', ',', '.', '/']
}

/// The virtual-key codes of the punctuation keys, in the order of
/// `punct_chars`.
pub open spec fn punct_keys() -> Seq<u16> {
    seq![0xFC, 0xDF, 0xBD, 0xBB, 0xDB, 0xDD, 0xDC, 0xBA, 0xDE, 0xBC, 0xBE, 0xBF]
}

/// Index of the first `x` in `s` from `i` on, or -1.
pub open spec fn find_in<T>(s: Seq<T>, x: T, i: int) -> int
    decreases s.len() - i,
{
    if i < 0 || i >= s.len() {
        -1
    } else if s[i] == x {
        i
    } else {
        find_in(s, x, i + 1)
    }
}

/// The modifier set a character stands for.
pub open spec fn modifier_of(c: char) -> Option<u32> {
    if c == 'S' {
        Some(MOD_SHIFT | MOD_CONTROL)
    } else if c == 'A' {
        Some(MOD_ALT | MOD_CONTROL)
    } else if c == 'N' {
        Some(0)
    } else {
        None
    }
}

/// The character of a modifier set.
pub open spec fn modifier_char(m: u32) -> Option<char> {
    if m == MOD_SHIFT | MOD_CONTROL {
        Some('S')
    } else if m == MOD_ALT | MOD_CONTROL {
        Some('A')
    } else if m == 0 {
        Some('N')
    } else {
        None
    }
}

/// The virtual-key code a character stands for.
pub open spec fn key_of(c: char) -> Option<u16> {
    if 'A' <= c && c <= 'Z' {
        Some((VK_A + (c as int - 'A' as int)) as u16)
    } else if '0' <= c && c <= '9' {
        Some((VK_0 + (c as int - '0' as int)) as u16)
    } else if find_in(punct_chars(), c, 0) >= 0 {
        Some(punct_keys()[find_in(punct_chars(), c, 0)])
    } else {
        None
    }
}

/// The character of a virtual-key code.
pub open spec fn key_char(k: u16) -> Option<char> {
    if VK_A <= k && k <= VK_A + 25 {
        Some(letters()[k - VK_A])
    } else if VK_0 <= k && k <= VK_0 + 9 {
        Some(digit_chars()[k - VK_0])
    } else if find_in(punct_keys(), k, 0) >= 0 {
        Some(punct_chars()[find_in(punct_keys(), k, 0)])
    } else {
        None
    }
}

fn punct_chars_exec() -> (r: Vec<char>)
    ensures
        r@ == punct_chars(),
{
    let v: Vec<char> = vec!['!', '`', '-', '=', '[', ']', '\\', ';', '\'', ',', '.', '/'];
    proof {
        assert(v@ =~= punct_chars());
    }
    v
}

fn punct_keys_exec() -> (r: Vec<u16>)
    ensures
        r@ == punct_keys(),
{
    let v: Vec<u16> = vec![0xFC, 0xDF, 0xBD, 0xBB, 0xDB, 0xDD, 0xDC, 0xBA, 0xDE, 0xBC, 0xBE, 0xBF];
    proof {
        assert(v@ =~= punct_keys());
    }
    v
}

fn find_char(s: &Vec<char>, x: char) -> (r: Option<usize>)
    ensures
        match r {
            Some(i) => i as int == find_in(s@, x, 0) && i < s@.len() && s@[i as int] == x,
            None => find_in(s@, x, 0) == -1,
        },
{
    let mut i: usize = 0;
    while i < s.len()
        invariant
            i <= s@.len(),
            find_in(s@, x, i as int) == find_in(s@, x, 0),
        decreases s.len() - i,
    {
        if s[i] == x {
            return Some(i);
        }
        i = i + 1;
    }
    None
}

fn find_key(s: &Vec<u16>, x: u16) -> (r: Option<usize>)
    ensures
        match r {
            Some(i) => i as int == find_in(s@, x, 0) && i < s@.len() && s@[i as int] == x,
            None => find_in(s@, x, 0) == -1,
        },
{
    let mut i: usize = 0;
    while i < s.len()
        invariant
            i <= s@.len(),
            find_in(s@, x, i as int) == find_in(s@, x, 0),
        decreases s.len() - i,
    {
        if s[i] == x {
            return Some(i);
        }
        i = i + 1;
    }
    None
}

/// Whether `c` names a punctuation key.
pub fn check_hotkey_char(c: &char) -> (r: bool)
    ensures
        r == (find_in(punct_chars(), *c, 0) >= 0),
{
    find_char(&punct_chars_exec(), *c).is_some()
}

/// The modifier set that character `c` stands for.
pub fn conv_char2vmod(c: char) -> (r: Option<u32>)
    ensures
        r == modifier_of(c),
{
    if c == 'S' {
        Some(MOD_SHIFT | MOD_CONTROL)
    } else if c == 'A' {
        Some(MOD_ALT | MOD_CONTROL)
    } else if c == 'N' {
        Some(0)
    } else {
        None
    }
}

/// The character of modifier set `hkmod`.
pub fn conv_vmod2char(hkmod: u32) -> (r: Option<char>)
    ensures
        r == modifier_char(hkmod),
{
    if hkmod == MOD_SHIFT | MOD_CONTROL {
        Some('S')
    } else if hkmod == MOD_ALT | MOD_CONTROL {
        Some('A')
    } else if hkmod == 0 {
        Some('N')
    } else {
        None
    }
}

/// The virtual-key code that character `c` stands for.
pub fn conv_char2vkey(c: char) -> (r: Option<u16>)
    ensures
        r == key_of(c),
{
    if 'A' <= c && c <= 'Z' {
        Some(VK_A + (c as u32 - 'A' as u32) as u16)
    } else if '0' <= c && c <= '9' {
        Some(VK_0 + (c as u32 - '0' as u32) as u16)
    } else {
        let keys = punct_keys_exec();
        match find_char(&punct_chars_exec(), c) {
            Some(i) => {
                assert(punct_keys().len() == punct_chars().len());
                Some(keys[i])
            },
            None => None,
        }
    }
}

/// The character of virtual-key code `vkey`.
pub fn conv_vkey2char(vkey: u16) -> (r: Option<char>)
    ensures
        r == key_char(vkey),
{
    if VK_A <= vkey && vkey <= VK_A + 25 {
        let l: Vec<char> = vec![
            'A', 'B', 'C', 'D', 'E', 'F', 'G', 'H', 'I', 'J', 'K', 'L', 'M', 'N', 'O', 'P', 'Q', 'R', 'S',
            'T', 'U', 'V', 'W', 'X', 'Y', 'Z',
        ];
        proof {
            assert(l@ =~= letters());
        }
        Some(l[(vkey - VK_A) as usize])
    } else if VK_0 <= vkey && vkey <= VK_0 + 9 {
        let d: Vec<char> = vec!['0', '1', '2', '3', '4', '5', '6', '7', '8', '9'];
        proof {
            assert(d@ =~= digit_chars());
        }
        Some(d[(vkey - VK_0) as usize])
    } else {
        let chars = punct_chars_exec();
        match find_key(&punct_keys_exec(), vkey) {
            Some(i) => {
                assert(punct_keys().len() == punct_chars().len());
                Some(chars[i])
            },
            None => None,
        }
    }
}

} // verus!
