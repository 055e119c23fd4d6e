//! The parameter string stored with each hotkey: what the hotkey opens, at
//! which size, and for which folder.
//!
//! `TASK,<w>,<h>,` opens the window list; `LIST,<w>,<h>,<HIDE|SHOW>[,<path>]`
//! a file list; `ICON,<LG|SM>,<w>,<h>,<HIDE|SHOW>[,<path>]` a file icon
//! view. `HIDE` hides system files.
use vstd::prelude::*;

use crate::text::{chars_of, lemma_split_join, lemma_split_single, same_chars, split_on, split_pieces, string_of};

verus! {

/// What a hotkey opens.
#[derive(Clone, Copy, PartialEq, Eq, Structural, Debug)]
pub enum HotkeyType {
    IconLauncher,
    ListLauncher,
    WinTaskList,
}

/// The settings behind one hotkey.
#[derive(Clone, Debug)]
pub struct PropertyHolder {
    pub hotkey_type: HotkeyType,
    pub b_icon_large: bool,
    pub w: u32,
    pub h: u32,
    pub b_sysfile_hidden: bool,
    pub path: String,
}

/// The settings of a `PropertyHolder`, with the path as characters.
pub struct PropertyView {
    pub hotkey_type: HotkeyType,
    pub b_icon_large: bool,
    pub w: u32,
    pub h: u32,
    pub b_sysfile_hidden: bool,
    pub path: Seq<char>,
}

impl View for PropertyHolder {
    type V = PropertyView;

    open spec fn view(&self) -> PropertyView {
        PropertyView {
            hotkey_type: self.hotkey_type,
            b_icon_large: self.b_icon_large,
            w: self.w,
            h: self.h,
            b_sysfile_hidden: self.b_sysfile_hidden,
            path: self.path@,
        }
    }
}

/// A file list of no size over no folder, hiding system files.
pub open spec fn default_property() -> PropertyView {
    PropertyView {
        hotkey_type: HotkeyType::ListLauncher,
        b_icon_large: false,
        w: 0,
        h: 0,
        b_sysfile_hidden: true,
        path: Seq::empty(),
    }
}

pub open spec fn digit_chars() -> Seq<char> {
    seq!['0', '1', '2', '3', '4', '5', '6', '7', '8', '9']
}

pub open spec fn is_digit(c: char) -> bool {
    '0' <= c && c <= '9'
}

pub open spec fn digit_value(c: char) -> int {
    c as int - '0' as int
}

/// The value of a run of decimal digits.
pub open spec fn digits_value(d: Seq<char>) -> int
    decreases d.len(),
{
    if d.len() == 0 { 0 } else { digits_value(d.drop_last()) * 10 + digit_value(d.last()) }
}

/// What `u32`'s `from_str` gives: an optional `+`, then at least one decimal
/// digit and nothing else, with a value that fits.
pub open spec fn parse_u32(s: Seq<char>) -> Option<u32> {
    let d = unsigned_digits(s);
    if all_digits(d) && digits_value(d) <= u32::MAX {
        Some(digits_value(d) as u32)
    } else {
        None
    }
}

/// `s` without a leading `+`.
pub open spec fn unsigned_digits(s: Seq<char>) -> Seq<char> {
    if s.len() > 0 && s[0] == '+' { s.drop_first() } else { s }
}

/// A non-empty run of decimal digits.
pub open spec fn all_digits(d: Seq<char>) -> bool {
    d.len() > 0 && forall|i: int| 0 <= i < d.len() ==> is_digit(#[trigger] d[i])
}

/// What `i32`'s `from_str` gives: an optional sign, then at least one
/// decimal digit and nothing else, with a value that fits.
pub open spec fn parse_i32(s: Seq<char>) -> Option<i32> {
    let neg = s.len() > 0 && s[0] == '-';
    let d = signed_digits(s);
    let v = if neg { -digits_value(d) } else { digits_value(d) };
    if all_digits(d) && i32::MIN <= v && v <= i32::MAX {
        Some(v as i32)
    } else {
        None
    }
}

/// `s` without a leading sign.
pub open spec fn signed_digits(s: Seq<char>) -> Seq<char> {
    if s.len() > 0 && (s[0] == '-' || s[0] == '+') { s.drop_first() } else { s }
}

/// The stored tray icon setting `path|index`: the icon file and the index of
/// the icon in it (-1 when missing or unreadable). Nothing is set when the
/// stored text is empty.
pub open spec fn notify_icon_of(s: Seq<char>) -> Option<(Seq<char>, i32)> {
    let p = split_on(s, '|');
    if s.len() == 0 {
        None
    } else if p.len() < 2 {
        Some((s, -1i32))
    } else {
        Some((p[0], if parse_i32(p[1]) is Some { parse_i32(p[1])->Some_0 } else { -1i32 }))
    }
}

/// The decimal digits of `n`, without leading zeros.
pub open spec fn decimal(n: nat) -> Seq<char>
    decreases n,
{
    if n < 10 { seq![digit_chars()[n as int]] } else { decimal(n / 10).push(digit_chars()[(n % 10) as int]) }
}

/// All pieces, one after the other.
pub open spec fn concat_all(ps: Seq<Seq<char>>) -> Seq<char>
    decreases ps.len(),
{
    if ps.len() == 0 { Seq::empty() } else { concat_all(ps.drop_last()) + ps.last() }
}

pub open spec fn word_task() -> Seq<char> {
    seq!['T', 'A', 'S', 'K']
}

pub open spec fn word_list() -> Seq<char> {
    seq!['L', 'I', 'S', 'T']
}

pub open spec fn word_icon() -> Seq<char> {
    seq!['I', 'C', 'O', 'N']
}

pub open spec fn word_large() -> Seq<char> {
    seq!['L', 'G']
}

pub open spec fn word_small() -> Seq<char> {
    seq!['S', 'M']
}

pub open spec fn word_hide() -> Seq<char> {
    seq!['H', 'I', 'D', 'E']
}

pub open spec fn word_show() -> Seq<char> {
    seq!['S', 'H', 'O', 'W']
}

/// `Some(true)` for `HIDE`, `Some(false)` for `SHOW`.
pub open spec fn hide_flag(s: Seq<char>) -> Option<bool> {
    if s == word_hide() { Some(true) } else if s == word_show() { Some(false) } else { None }
}

/// The settings a parameter string stands for; a string of none of the three
/// forms stands for the default settings. A path may have held commas: its
/// pieces are joined without them.
pub open spec fn parse_property(l: Seq<char>) -> PropertyView {
    let p = split_on(l, ',');
    if p.len() == 4 && p[0] == word_task() && parse_u32(p[1]) is Some && parse_u32(p[2]) is Some {
        PropertyView {
            hotkey_type: HotkeyType::WinTaskList,
            w: parse_u32(p[1])->Some_0,
            h: parse_u32(p[2])->Some_0,
            ..default_property()
        }
    } else if p.len() >= 4 && p[0] == word_list() && parse_u32(p[1]) is Some && parse_u32(p[2]) is Some
        && hide_flag(p[3]) is Some {
        PropertyView {
            hotkey_type: HotkeyType::ListLauncher,
            b_icon_large: false,
            w: parse_u32(p[1])->Some_0,
            h: parse_u32(p[2])->Some_0,
            b_sysfile_hidden: hide_flag(p[3])->Some_0,
            path: concat_all(p.subrange(4, p.len() as int)),
        }
    } else if p.len() >= 5 && p[0] == word_icon() && (p[1] == word_large() || p[1] == word_small())
        && parse_u32(p[2]) is Some && parse_u32(p[3]) is Some && hide_flag(p[4]) is Some {
        PropertyView {
            hotkey_type: HotkeyType::IconLauncher,
            b_icon_large: p[1] == word_large(),
            w: parse_u32(p[2])->Some_0,
            h: parse_u32(p[3])->Some_0,
            b_sysfile_hidden: hide_flag(p[4])->Some_0,
            path: concat_all(p.subrange(5, p.len() as int)),
        }
    } else {
        default_property()
    }
}

/// The parameter string of some settings.
pub open spec fn format_property(v: PropertyView) -> Seq<char> {
    let head = match v.hotkey_type {
        HotkeyType::IconLauncher => word_icon() + seq![','] + if v.b_icon_large { word_large() } else { word_small() }
            + seq![','],
        HotkeyType::ListLauncher => word_list() + seq![','],
        HotkeyType::WinTaskList => word_task() + seq![','],
    };
    let sizes = head + decimal(v.w as nat) + seq![','] + decimal(v.h as nat) + seq![','];
    if v.hotkey_type == HotkeyType::WinTaskList {
        sizes
    } else {
        sizes + if v.b_sysfile_hidden { word_hide() } else { word_show() } + if v.path.len() > 0 {
            seq![','] + v.path
        } else {
            Seq::empty()
        }
    }
}

proof fn lemma_digit_char(k: int)
    requires
        0 <= k < 10,
    ensures
        is_digit(digit_chars()[k]),
        digit_value(digit_chars()[k]) == k,
{
    if k == 0 {
    } else if k == 1 {
    } else if k == 2 {
    } else if k == 3 {
    } else if k == 4 {
    } else if k == 5 {
    } else if k == 6 {
    } else if k == 7 {
    } else if k == 8 {
    } else {
    }
}

/// The decimal digits of `n` read back as `n`.
pub proof fn lemma_decimal_reads_back(n: nat)
    ensures
        all_digits(decimal(n)),
        digits_value(decimal(n)) == n,
        n <= u32::MAX ==> parse_u32(decimal(n)) == Some(n as u32),
    decreases n,
{
    if n < 10 {
        lemma_digit_char(n as int);
        let d = decimal(n);
        assert(d.drop_last() =~= Seq::<char>::empty());
        assert(digits_value(d.drop_last()) == 0);
        assert(d.last() == digit_chars()[n as int]);
        assert(digits_value(d) == n);
    } else {
        lemma_decimal_reads_back(n / 10);
        lemma_digit_char((n % 10) as int);
        let d = decimal(n);
        assert(d.drop_last() =~= decimal(n / 10));
        assert(forall|i: int| 0 <= i < d.len() ==> is_digit(#[trigger] d[i])) by {
            assert forall|i: int| 0 <= i < d.len() implies is_digit(#[trigger] d[i]) by {
                if i < d.len() - 1 {
                    assert(d[i] == decimal(n / 10)[i]);
                }
            }
        }
        assert((n / 10) * 10 + n % 10 == n) by (nonlinear_arith);
        assert(d.last() == digit_chars()[(n % 10) as int]);
        assert(digits_value(d) == digits_value(decimal(n / 10)) * 10 + (n % 10));
    }
    lemma_digit_char(0);
    let d = decimal(n);
    assert(d[0] != '+') by {
        assert(is_digit(d[0]));
    }
    assert(unsigned_digits(d) == d);
}

/// The settings a parameter string can carry: a window list keeps no icon
/// size, folder or flag, a file list no icon size, and no path holds a comma.
pub open spec fn representable(v: PropertyView) -> bool {
    &&& (v.hotkey_type == HotkeyType::WinTaskList ==> !v.b_icon_large && v.b_sysfile_hidden && v.path.len() == 0)
    &&& (v.hotkey_type == HotkeyType::ListLauncher ==> !v.b_icon_large)
    &&& forall|i: int| 0 <= i < v.path.len() ==> v.path[i] != ','
}

proof fn lemma_no_comma_words()
    ensures
        split_on(word_task(), ',') == seq![word_task()],
        split_on(word_list(), ',') == seq![word_list()],
        split_on(word_icon(), ',') == seq![word_icon()],
        split_on(word_large(), ',') == seq![word_large()],
        split_on(word_small(), ',') == seq![word_small()],
        split_on(word_hide(), ',') == seq![word_hide()],
        split_on(word_show(), ',') == seq![word_show()],
        word_task() != word_list(),
        word_task() != word_icon(),
        word_list() != word_icon(),
        word_large() != word_small(),
        word_hide() != word_show(),
        hide_flag(word_hide()) == Some(true),
        hide_flag(word_show()) == Some(false),
{
    lemma_split_single(word_task(), ',');
    lemma_split_single(word_list(), ',');
    lemma_split_single(word_icon(), ',');
    lemma_split_single(word_large(), ',');
    lemma_split_single(word_small(), ',');
    lemma_split_single(word_hide(), ',');
    lemma_split_single(word_show(), ',');
    assert(word_task()[0] != word_list()[0]);
    assert(word_task()[0] != word_icon()[0]);
    assert(word_list()[0] != word_icon()[0]);
    assert(word_large()[0] != word_small()[0]);
    assert(word_hide()[0] != word_show()[0]);
}

proof fn lemma_decimal_single(n: nat)
    ensures
        split_on(decimal(n), ',') == seq![decimal(n)],
{
    lemma_decimal_reads_back(n);
    let d = decimal(n);
    assert forall|i: int| 0 <= i < d.len() implies d[i] != ',' by {
        assert(is_digit(d[i]));
    }
    lemma_split_single(d, ',');
}

/// Formatting settings and parsing the string back gives the same settings,
/// for every settings the string form can carry.
pub proof fn lemma_property_round_trip(v: PropertyView)
    requires
        representable(v),
    ensures
        parse_property(format_property(v)) == v,
{
    lemma_no_comma_words();
    lemma_decimal_single(v.w as nat);
    lemma_decimal_single(v.h as nat);
    lemma_decimal_reads_back(v.w as nat);
    lemma_decimal_reads_back(v.h as nat);
    let c = seq![','];
    let dw = decimal(v.w as nat);
    let dh = decimal(v.h as nat);
    let e = Seq::<char>::empty();
    let f = if v.b_sysfile_hidden { word_hide() } else { word_show() };
    let s = format_property(v);
    match v.hotkey_type {
        HotkeyType::WinTaskList => {
            assert(s =~= word_task() + c + dw + c + dh + c + e);
            lemma_split_join(word_task(), dw, ',');
            lemma_split_join(word_task() + c + dw, dh, ',');
            lemma_split_join(word_task() + c + dw + c + dh, e, ',');
            let p = split_on(s, ',');
            assert(p =~= seq![word_task(), dw, dh, e]);
            assert(v.path =~= Seq::<char>::empty());
            assert(parse_property(s) == v);
        },
        HotkeyType::ListLauncher => {
            let head = word_list() + c + dw + c + dh + c + f;
            lemma_split_join(word_list(), dw, ',');
            lemma_split_join(word_list() + c + dw, dh, ',');
            lemma_split_join(word_list() + c + dw + c + dh, f, ',');
            assert(split_on(head, ',') =~= seq![word_list(), dw, dh, f]);
            if v.path.len() > 0 {
                assert(s =~= head + c + v.path);
                lemma_split_join(head, v.path, ',');
                lemma_split_single(v.path, ',');
                let p = split_on(s, ',');
                assert(p =~= seq![word_list(), dw, dh, f, v.path]);
                assert(p.subrange(4, 5) =~= seq![v.path]);
                assert(seq![v.path].drop_last() =~= Seq::<Seq<char>>::empty());
                assert(seq![v.path].last() == v.path);
                assert(concat_all(Seq::<Seq<char>>::empty()) == Seq::<char>::empty());
                assert(Seq::<char>::empty() + v.path =~= v.path);
                assert(concat_all(seq![v.path]) == v.path);
            } else {
                assert(s =~= head);
                let p = split_on(s, ',');
                assert(p.subrange(4, 4) =~= Seq::<Seq<char>>::empty());
                assert(v.path =~= Seq::<char>::empty());
            }
            assert(parse_property(s) == v);
        },
        HotkeyType::IconLauncher => {
            let z = if v.b_icon_large { word_large() } else { word_small() };
            let head = word_icon() + c + z + c + dw + c + dh + c + f;
            lemma_split_join(word_icon(), z, ',');
            lemma_split_join(word_icon() + c + z, dw, ',');
            lemma_split_join(word_icon() + c + z + c + dw, dh, ',');
            lemma_split_join(word_icon() + c + z + c + dw + c + dh, f, ',');
            assert(split_on(head, ',') =~= seq![word_icon(), z, dw, dh, f]);
            if v.path.len() > 0 {
                assert(s =~= head + c + v.path);
                lemma_split_join(head, v.path, ',');
                lemma_split_single(v.path, ',');
                let p = split_on(s, ',');
                assert(p =~= seq![word_icon(), z, dw, dh, f, v.path]);
                assert(p.subrange(5, 6) =~= seq![v.path]);
                assert(seq![v.path].drop_last() =~= Seq::<Seq<char>>::empty());
                assert(seq![v.path].last() == v.path);
                assert(concat_all(Seq::<Seq<char>>::empty()) == Seq::<char>::empty());
                assert(Seq::<char>::empty() + v.path =~= v.path);
                assert(concat_all(seq![v.path]) == v.path);
            } else {
                assert(s =~= head);
                let p = split_on(s, ',');
                assert(p.subrange(5, 5) =~= Seq::<Seq<char>>::empty());
                assert(v.path =~= Seq::<char>::empty());
            }
            assert(parse_property(s) == v);
        },
    }
}

/// The character of digit `d`.
fn digit_char(d: u32) -> (r: char)
    requires
        d < 10,
    ensures
        r == digit_chars()[d as int],
{
    let t: Vec<char> = vec!['0', '1', '2', '3', '4', '5', '6', '7', '8', '9'];
    proof {
        assert(t@ =~= digit_chars());
    }
    t[d as usize]
}

/// Appends the decimal digits of `n`.
fn push_decimal(out: &mut Vec<char>, n: u32)
    ensures
        final(out)@ == old(out)@ + decimal(n as nat),
    decreases n,
{
    if n >= 10 {
        push_decimal(out, n / 10);
    }
    let c = digit_char(n % 10);
    out.push(c);
    proof {
        if n >= 10 {
            assert(final(out)@ =~= old(out)@ + decimal(n as nat));
        } else {
            assert(final(out)@ =~= old(out)@ + decimal(n as nat));
        }
    }
}

/// Appends the characters of `s`.
fn push_all(out: &mut Vec<char>, s: &Vec<char>)
    ensures
        final(out)@ == old(out)@ + s@,
{
    let mut i: usize = 0;
    while i < s.len()
        invariant
            i <= s@.len(),
            out@ == old(out)@ + s@.take(i as int),
        decreases s.len() - i,
    {
        out.push(s[i]);
        proof {
            assert(out@ =~= old(out)@ + s@.take(i + 1));
        }
        i = i + 1;
    }
    proof {
        assert(s@.take(s@.len() as int) =~= s@);
    }
}

/// `u32`'s reading of `s` (see `parse_u32`).
fn parse_number(s: &Vec<char>) -> (r: Option<u32>)
    ensures
        r == parse_u32(s@),
{
    let start: usize = if s.len() > 0 && s[0] == '+' { 1 } else { 0 };
    let ghost d = unsigned_digits(s@);
    if start >= s.len() {
        return None;
    }
    proof {
        assert(d =~= s@.subrange(start as int, s@.len() as int));
        assert(d.take(0) =~= Seq::<char>::empty());
    }
    let mut acc: u64 = 0;
    let mut i: usize = start;
    while i < s.len()
        invariant
            start <= i <= s@.len(),
            start == 0 || start == 1,
            d == s@.subrange(start as int, s@.len() as int),
            d == unsigned_digits(s@),
            forall|k: int| 0 <= k < i - start ==> is_digit(#[trigger] d[k]),
            acc == if digits_value(d.take(i - start)) > u32::MAX { u32::MAX as int + 1 } else { digits_value(
                d.take(i - start),
            ) },
            digits_value(d.take(i - start)) >= 0,
        decreases s.len() - i,
    {
        let c = s[i];
        if !('0' <= c && c <= '9') {
            proof {
                assert(d[i - start] == c);
                assert(!is_digit(d[i - start]));
                assert(!all_digits(d));
            }
            return None;
        }
        let v = (c as u32 - '0' as u32) as u64;
        proof {
            assert(d.take(i - start + 1).drop_last() =~= d.take(i - start));
            assert(d.take(i - start + 1).last() == c);
        }
        if acc > u32::MAX as u64 {
            acc = u32::MAX as u64 + 1;
        } else {
            acc = acc * 10 + v;
            if acc > u32::MAX as u64 {
                acc = u32::MAX as u64 + 1;
            }
        }
        i = i + 1;
    }
    proof {
        assert(d.take(i - start) =~= d);
    }
    if acc > u32::MAX as u64 {
        None
    } else {
        Some(acc as u32)
    }
}

/// `i32`'s reading of `s` (see `parse_i32`).
fn parse_signed(s: &Vec<char>) -> (r: Option<i32>)
    ensures
        r == parse_i32(s@),
{
    let neg = s.len() > 0 && s[0] == '-';
    let start: usize = if s.len() > 0 && (s[0] == '-' || s[0] == '+') { 1 } else { 0 };
    let ghost d = signed_digits(s@);
    let cap: u64 = 0x8000_0001;
    if start >= s.len() {
        return None;
    }
    proof {
        assert(d =~= s@.subrange(start as int, s@.len() as int));
        assert(d.take(0) =~= Seq::<char>::empty());
    }
    let mut acc: u64 = 0;
    let mut i: usize = start;
    while i < s.len()
        invariant
            start <= i <= s@.len(),
            start == 0 || start == 1,
            cap == 0x8000_0001,
            d == signed_digits(s@),
            neg == (s@.len() > 0 && s@[0] == '-'),
            d == s@.subrange(start as int, s@.len() as int),
            forall|k: int| 0 <= k < i - start ==> is_digit(#[trigger] d[k]),
            acc == if digits_value(d.take(i - start)) >= cap { cap as int } else { digits_value(
                d.take(i - start),
            ) },
            digits_value(d.take(i - start)) >= 0,
        decreases s.len() - i,
    {
        let c = s[i];
        if !('0' <= c && c <= '9') {
            proof {
                assert(d[i - start] == c);
                assert(!all_digits(d));
            }
            return None;
        }
        let v = (c as u32 - '0' as u32) as u64;
        proof {
            assert(d.take(i - start + 1).drop_last() =~= d.take(i - start));
            assert(d.take(i - start + 1).last() == c);
        }
        if acc < cap {
            acc = acc * 10 + v;
        }
        if acc > cap {
            acc = cap;
        }
        i = i + 1;
    }
    proof {
        assert(d.take(i - start) =~= d);
    }
    if neg {
        if acc > 0x8000_0000 {
            None
        } else {
            Some((0 - acc as i64) as i32)
        }
    } else {
        if acc > 0x7fff_ffff {
            None
        } else {
            Some(acc as i32)
        }
    }
}

/// All pieces of `ps` from index `from` on, one after the other.
fn concat_from(ps: &Vec<Vec<char>>, from: usize) -> (r: Vec<char>)
    requires
        from <= ps@.len(),
    ensures
        r@ == concat_all(ps@.map_values(|v: Vec<char>| v@).subrange(from as int, ps@.len() as int)),
{
    let ghost all = ps@.map_values(|v: Vec<char>| v@);
    let mut out: Vec<char> = Vec::new();
    let mut i: usize = from;
    while i < ps.len()
        invariant
            from <= i <= ps@.len(),
            all == ps@.map_values(|v: Vec<char>| v@),
            out@ == concat_all(all.subrange(from as int, i as int)),
        decreases ps.len() - i,
    {
        push_all(&mut out, &ps[i]);
        proof {
            assert(all.subrange(from as int, i + 1).drop_last() =~= all.subrange(from as int, i as int));
        }
        i = i + 1;
    }
    out
}

/// Whether `v` holds exactly the characters `w`.
fn is_word(v: &Vec<char>, w: &Vec<char>) -> (r: bool)
    ensures
        r == (v@ == w@),
{
    same_chars(v, w)
}

/// `Some(true)` for `HIDE`, `Some(false)` for `SHOW`.
fn read_hide(v: &Vec<char>) -> (r: Option<bool>)
    ensures
        r == hide_flag(v@),
{
    let hide: Vec<char> = vec!['H', 'I', 'D', 'E'];
    let show: Vec<char> = vec!['S', 'H', 'O', 'W'];
    proof {
        assert(hide@ =~= word_hide());
        assert(show@ =~= word_show());
    }
    if is_word(v, &hide) {
        Some(true)
    } else if is_word(v, &show) {
        Some(false)
    } else {
        None
    }
}

impl Default for PropertyHolder {
    fn default() -> (r: Self)
        ensures
            r@ == default_property(),
    {
        let e: Vec<char> = Vec::new();
        let path = string_of(&e);
        proof {
            assert(path@ =~= Seq::<char>::empty());
        }
        PropertyHolder {
            hotkey_type: HotkeyType::ListLauncher,
            b_icon_large: false,
            w: 0,
            h: 0,
            b_sysfile_hidden: true,
            path,
        }
    }
}

impl PropertyHolder {
    pub fn new(
        hotkey_type: HotkeyType,
        b_icon_large: bool,
        w: u32,
        h: u32,
        b_sysfile_hidden: bool,
        path: String,
    ) -> (r: Self)
        ensures
            r@ == (PropertyView { hotkey_type, b_icon_large, w, h, b_sysfile_hidden, path: path@ }),
    {
        PropertyHolder { hotkey_type, b_icon_large, w, h, b_sysfile_hidden, path }
    }

    /// The settings that parameter string `l` stands for.
    pub fn parse_string(l: &str) -> (r: Self)
        ensures
            r@ == parse_property(l@),
    {
        let cs = chars_of(l);
        let p = split_pieces(&cs, ',');
        let ghost ps = split_on(l@, ',');
        proof {
            assert(p@.map_values(|v: Vec<char>| v@) =~= ps);
        }
        let task: Vec<char> = vec!['T', 'A', 'S', 'K'];
        let list: Vec<char> = vec!['L', 'I', 'S', 'T'];
        let icon: Vec<char> = vec!['I', 'C', 'O', 'N'];
        let large: Vec<char> = vec!['L', 'G'];
        let small: Vec<char> = vec!['S', 'M'];
        proof {
            assert(task@ =~= word_task());
            assert(list@ =~= word_list());
            assert(icon@ =~= word_icon());
            assert(large@ =~= word_large());
            assert(small@ =~= word_small());
        }
        let n = p.len();
        if n == 4 && is_word(&p[0], &task) {
            if let (Some(w), Some(h)) = (parse_number(&p[1]), parse_number(&p[2])) {
                let d = Self::default();
                return PropertyHolder { hotkey_type: HotkeyType::WinTaskList, w, h, ..d };
            }
        }
        if n >= 4 && is_word(&p[0], &list) {
            if let (Some(w), Some(h), Some(hide)) = (parse_number(&p[1]), parse_number(&p[2]), read_hide(&p[3])) {
                let path = string_of(&concat_from(&p, 4));
                return PropertyHolder {
                    hotkey_type: HotkeyType::ListLauncher,
                    b_icon_large: false,
                    w,
                    h,
                    b_sysfile_hidden: hide,
                    path,
                };
            }
        }
        if n >= 5 && is_word(&p[0], &icon) {
            let is_large = is_word(&p[1], &large);
            if is_large || is_word(&p[1], &small) {
                if let (Some(w), Some(h), Some(hide)) = (parse_number(&p[2]), parse_number(&p[3]), read_hide(&p[4])) {
                    let path = string_of(&concat_from(&p, 5));
                    return PropertyHolder {
                        hotkey_type: HotkeyType::IconLauncher,
                        b_icon_large: is_large,
                        w,
                        h,
                        b_sysfile_hidden: hide,
                        path,
                    };
                }
            }
        }
        Self::default()
    }

    /// The parameter string of these settings.
    pub fn to_string(&self) -> (r: String)
        ensures
            r@ == format_property(self@),
    {
        let mut out: Vec<char> = Vec::new();
        let head: Vec<char> = match self.hotkey_type {
            HotkeyType::IconLauncher => if self.b_icon_large {
                vec!['I', 'C', 'O', 'N', ',', 'L', 'G', ',']
            } else {
                vec!['I', 'C', 'O', 'N', ',', 'S', 'M', ',']
            },
            HotkeyType::ListLauncher => vec!['L', 'I', 'S', 'T', ','],
            HotkeyType::WinTaskList => vec!['T', 'A', 'S', 'K', ','],
        };
        push_all(&mut out, &head);
        push_decimal(&mut out, self.w);
        out.push(',');
        push_decimal(&mut out, self.h);
        out.push(',');
        let ghost sizes = out@;
        proof {
            let v = self@;
            let h = match v.hotkey_type {
                HotkeyType::IconLauncher => word_icon() + seq![','] + if v.b_icon_large { word_large() } else {
                    word_small()
                } + seq![','],
                HotkeyType::ListLauncher => word_list() + seq![','],
                HotkeyType::WinTaskList => word_task() + seq![','],
            };
            assert(head@ =~= h);
            assert(sizes =~= h + decimal(v.w as nat) + seq![','] + decimal(v.h as nat) + seq![',']);
        }
        if self.hotkey_type != HotkeyType::WinTaskList {
            let flag: Vec<char> = if self.b_sysfile_hidden { vec!['H', 'I', 'D', 'E'] } else { vec!['S', 'H', 'O', 'W'] };
            push_all(&mut out, &flag);
            let path = chars_of(self.path.as_str());
            if path.len() > 0 {
                out.push(',');
                push_all(&mut out, &path);
            }
            proof {
                let v = self@;
                assert(flag@ =~= if v.b_sysfile_hidden { word_hide() } else { word_show() });
                assert(out@ =~= format_property(v));
            }
        }
        string_of(&out)
    }
}


impl PropertyHolder {
    /// The tray icon setting that stored text `stored` stands for (see
    /// `notify_icon_of`).
    pub fn load_notify_icon_param(stored: &str) -> (r: Option<(String, i32)>)
        ensures
            match notify_icon_of(stored@) {
                None => r is None,
                Some((path, index)) => r is Some && r->Some_0.0@ == path && r->Some_0.1 == index,
            },
    {
        let cs = chars_of(stored);
        if cs.len() == 0 {
            return None;
        }
        let p = split_pieces(&cs, '|');
        if p.len() < 2 {
            return Some((string_of(&cs), -1));
        }
        let index = match parse_signed(&p[1]) {
            Some(i) => i,
            None => -1,
        };
        Some((string_of(&p[0]), index))
    }

    /// The stored lines of a folder: its settings line, then its sort order.
    /// These are the lines after the settings line is replaced by `param`.
    pub fn update_dir_param(now: &Vec<String>, param: String) -> (r: Vec<String>)
        ensures
            r@.len() >= 1,
            r@[0] == param,
            r@.drop_first() == if now@.len() > 1 { now@.drop_first() } else { Seq::<String>::empty() },
    {
        let mut out: Vec<String> = Vec::new();
        out.push(param);
        if now.len() > 1 {
            let mut i: usize = 1;
            while i < now.len()
                invariant
                    1 <= i <= now@.len(),
                    out@.len() == i,
                    out@[0] == param,
                    forall|k: int| 1 <= k < i ==> out@[k] == now@[k],
                decreases now.len() - i,
            {
                out.push(now[i].clone());
                i = i + 1;
            }
            proof {
                assert(out@.drop_first() =~= now@.drop_first());
            }
        } else {
            proof {
                assert(out@.drop_first() =~= Seq::<String>::empty());
            }
        }
        out
    }

    /// The stored lines of a folder after its sort order is set to `sort_list`.
    /// A folder without lines keeps none unless `b_sorted` (`None`); one gets
    /// the default settings line first. The sort order is written when
    /// `b_sorted`, or when the folder already had more than one sort line.
    pub fn store_filesort_param(b_sorted: bool, now: &Vec<String>, sort_list: &Vec<String>) -> (r: Option<Vec<String>>)
        ensures
            now@.len() == 0 && !b_sorted ==> r is None,
            !(now@.len() == 0 && !b_sorted) ==> r is Some && ({
                let out = r->Some_0@;
                &&& out.len() >= 1
                &&& (now@.len() > 0 ==> out[0] == now@[0])
                &&& (now@.len() == 0 ==> out[0]@ == format_property(default_property()))
                &&& out.drop_first() == if b_sorted || now@.len() > 2 { sort_list@ } else { Seq::<String>::empty() }
            }),
    {
        let first = if now.len() > 0 {
            now[0].clone()
        } else {
            if !b_sorted {
                return None;
            }
            PropertyHolder::default().to_string()
        };
        let mut out: Vec<String> = Vec::new();
        out.push(first);
        if b_sorted || now.len() > 2 {
            let mut i: usize = 0;
            while i < sort_list.len()
                invariant
                    i <= sort_list@.len(),
                    out@.len() == i + 1,
                    out@[0] == first,
                    forall|k: int| 0 <= k < i ==> out@[k + 1] == sort_list@[k],
                decreases sort_list.len() - i,
            {
                out.push(sort_list[i].clone());
                i = i + 1;
            }
            proof {
                assert(out@.drop_first() =~= sort_list@);
            }
        } else {
            proof {
                assert(out@.drop_first() =~= Seq::<String>::empty());
            }
        }
        Some(out)
    }

    /// The stored lines of a folder after its sort order is dropped: only the
    /// settings line stays. `None` when there was no sort line to drop.
    pub fn sort_reset(now: &Vec<String>) -> (r: Option<Vec<String>>)
        ensures
            now@.len() <= 1 ==> r is None,
            now@.len() > 1 ==> r is Some && r->Some_0@ == seq![now@[0]],
    {
        if now.len() <= 1 {
            return None;
        }
        let mut out: Vec<String> = Vec::new();
        out.push(now[0].clone());
        proof {
            assert(out@ =~= seq![now@[0]]);
        }
        Some(out)
    }
}

} // verus!
