//! The window sort list: its entries, read from stored lines, hold image
//! names or patterns with `*` wildcards, and process image names are matched
//! against them.
use vstd::prelude::*;

use crate::records::WinSortList;
use crate::text::{chars_of, same_chars, split_on, split_pieces};

verus! {

/// Whether `p` occurs in `s` at index `i`.
pub open spec fn occurs_at(s: Seq<char>, p: Seq<char>, i: int) -> bool {
    0 <= i && i + p.len() <= s.len() && s.subrange(i, i + p.len()) == p
}

/// Scanning `s` from `j` for occurrences of the non-empty `p`, each search
/// starting where the last occurrence ended: the end of the last one found,
/// or `e` when there is none.
pub open spec fn greedy_end(s: Seq<char>, p: Seq<char>, j: int, e: int) -> int
    decreases s.len() - j,
{
    if p.len() == 0 || j < 0 || j + p.len() > s.len() {
        e
    } else if occurs_at(s, p, j) {
        greedy_end(s, p, j + p.len(), j + p.len())
    } else {
        greedy_end(s, p, j + 1, e)
    }
}

/// Where matching stands after the first `n` pieces of the pattern: the
/// index reached in `s`, or `None` once a piece was not found. An empty last
/// piece (a trailing `*`) reaches the end of `s`.
pub open spec fn wild_state(s: Seq<char>, parts: Seq<Seq<char>>, n: int) -> Option<int>
    decreases n,
{
    if n <= 0 {
        Some(0)
    } else {
        match wild_state(s, parts, n - 1) {
            None => None,
            Some(idx) => {
                let part = parts[n - 1];
                if part.len() == 0 {
                    Some(if n == parts.len() { s.len() as int } else { idx })
                } else {
                    let e = greedy_end(s, part, idx, idx);
                    if e == idx { None } else { Some(e) }
                }
            },
        }
    }
}

/// Whether name `s` matches pattern `p`: every piece is found in turn, and
/// the last one found ends at the end of `s`.
pub open spec fn wildcard_matches(s: Seq<char>, p: Seq<char>) -> bool {
    let parts = split_on(p, '*');
    match wild_state(s, parts, parts.len() as int) {
        Some(i) => i == s.len(),
        None => false,
    }
}

/// Whether `p` occurs in `s` at index `j`.
fn occurs(s: &Vec<char>, p: &Vec<char>, j: usize) -> (r: bool)
    ensures
        r == occurs_at(s@, p@, j as int),
{
    if j > s.len() || p.len() > s.len() - j {
        return false;
    }
    let mut k: usize = 0;
    while k < p.len()
        invariant
            j + p@.len() <= s@.len(),
            k <= p@.len(),
            forall|m: int| 0 <= m < k ==> s@[j + m] == p@[m],
        decreases p.len() - k,
    {
        assert(j + k < s@.len() && s@.len() == s.len());
        if s[j + k] != p[k] {
            proof {
                assert(s@.subrange(j as int, j + p@.len())[k as int] != p@[k as int]);
            }
            return false;
        }
        k = k + 1;
    }
    proof {
        assert(s@.subrange(j as int, j + p@.len()) =~= p@);
    }
    true
}

/// `greedy_end(s, p, j, j)`.
fn run_end(s: &Vec<char>, p: &Vec<char>, j: usize) -> (r: usize)
    requires
        p@.len() > 0,
        j <= s@.len(),
    ensures
        r == greedy_end(s@, p@, j as int, j as int),
        j <= r <= s@.len(),
{
    let mut k: usize = j;
    let mut e: usize = j;
    while p.len() <= s.len() - k
        invariant
            p@.len() > 0,
            j <= e <= k <= s@.len(),
            greedy_end(s@, p@, k as int, e as int) == greedy_end(s@, p@, j as int, j as int),
        decreases s.len() - k,
    {
        if occurs(s, p, k) {
            k = k + p.len();
            e = k;
        } else {
            k = k + 1;
        }
    }
    e
}

/// Whether name `s1` matches pattern `s2`, whose `*`s stand for any run of
/// characters.
pub fn compare_wildcard(s1: &str, s2: &str) -> (r: bool)
    ensures
        r == wildcard_matches(s1@, s2@),
{
    let s = chars_of(s1);
    let p = chars_of(s2);
    let parts = split_pieces(&p, '*');
    let ghost ps = split_on(s2@, '*');
    let n = parts.len();
    let mut idx: usize = 0;
    let mut i: usize = 0;
    while i < n
        invariant
            s@ == s1@,
            ps == split_on(s2@, '*'),
            n == parts@.len(),
            n == ps.len(),
            forall|k: int| 0 <= k < n ==> #[trigger] parts@[k]@ == ps[k],
            i <= n,
            wild_state(s@, ps, i as int) == Some(idx as int),
            idx <= s@.len(),
        decreases n - i,
    {
        assert(parts@[i as int]@ == ps[i as int]);
        if parts[i].len() == 0 {
            if i == n - 1 {
                idx = s.len();
            }
        } else {
            let e = run_end(&s, &parts[i], idx);
            if e == idx {
                proof {
                    assert(wild_state(s@, ps, i + 1) is None);
                    lemma_stays_failed(s@, ps, i as int + 1, n as int);
                }
                return false;
            }
            idx = e;
        }
        i = i + 1;
    }
    idx == s.len()
}

proof fn lemma_stays_failed(s: Seq<char>, parts: Seq<Seq<char>>, i: int, n: int)
    requires
        0 <= i <= n,
        wild_state(s, parts, i) is None,
    ensures
        wild_state(s, parts, n) is None,
    decreases n - i,
{
    if i < n {
        lemma_stays_failed(s, parts, i + 1, n);
    }
}

/// Whether a sort list entry takes image name `c`: a pattern when it matches,
/// an image name when it is the same.
pub open spec fn entry_takes(e: WinSortList, c: Seq<char>) -> bool {
    match e {
        WinSortList::WILDCARD(p) => wildcard_matches(c, p@),
        WinSortList::IMGFILE(n) => n@ == c,
    }
}

/// Index of the first entry of the sort list that takes image name `c`.
pub fn contains_window_sort_list(vec: &Vec<WinSortList>, c: &str) -> (r: Option<usize>)
    ensures
        match r {
            Some(i) => i < vec@.len() && entry_takes(vec@[i as int], c@) && forall|j: int|
                0 <= j < i ==> !entry_takes(#[trigger] vec@[j], c@),
            None => forall|j: int| 0 <= j < vec@.len() ==> !entry_takes(#[trigger] vec@[j], c@),
        },
{
    let cs = chars_of(c);
    let mut i: usize = 0;
    while i < vec.len()
        invariant
            cs@ == c@,
            i <= vec@.len(),
            forall|j: int| 0 <= j < i ==> !entry_takes(#[trigger] vec@[j], c@),
        decreases vec.len() - i,
    {
        let hit = match &vec[i] {
            WinSortList::WILDCARD(p) => compare_wildcard(c, p.as_str()),
            WinSortList::IMGFILE(n) => {
                let ns = chars_of(n.as_str());
                same_chars(&ns, &cs)
            },
        };
        if hit {
            return Some(i);
        }
        i = i + 1;
    }
    None
}


/// The first pattern of `list` that image name `c` matches.
pub fn contains_procimg_list(list: &Vec<String>, c: &str) -> (r: Option<String>)
    ensures
        match r {
            Some(p) => exists|i: int|
                0 <= i < list@.len() && #[trigger] list@[i]@ == p@ && wildcard_matches(c@, p@) && forall|j: int|
                    0 <= j < i ==> !wildcard_matches(c@, #[trigger] list@[j]@),
            None => forall|j: int| 0 <= j < list@.len() ==> !wildcard_matches(c@, #[trigger] list@[j]@),
        },
{
    let mut i: usize = 0;
    while i < list.len()
        invariant
            i <= list@.len(),
            forall|j: int| 0 <= j < i ==> !wildcard_matches(c@, #[trigger] list@[j]@),
        decreases list.len() - i,
    {
        if compare_wildcard(c, list[i].as_str()) {
            let p = list[i].clone();
            assert(list@[i as int]@ == p@);
            return Some(p);
        }
        i = i + 1;
    }
    None
}

/// Whether a line holds a `*`.
pub open spec fn has_star(l: Seq<char>) -> bool {
    exists|i: int| 0 <= i < l.len() && l[i] == '*'
}

fn holds_star(l: &String) -> (r: bool)
    ensures
        r == has_star(l@),
{
    let cs = chars_of(l.as_str());
    let mut i: usize = 0;
    while i < cs.len()
        invariant
            cs@ == l@,
            i <= cs@.len(),
            forall|k: int| 0 <= k < i ==> cs@[k] != '*',
        decreases cs.len() - i,
    {
        if cs[i] == '*' {
            return true;
        }
        i = i + 1;
    }
    false
}

/// The sort list that stored lines stand for: a line with a `*` is a
/// pattern, any other an image name; the order is kept.
pub fn winsort_from_lines(lines: &Vec<String>) -> (r: Vec<WinSortList>)
    ensures
        r@.len() == lines@.len(),
        forall|i: int|
            0 <= i < lines@.len() ==> match #[trigger] r@[i] {
                WinSortList::WILDCARD(p) => has_star(lines@[i]@) && p@ == lines@[i]@,
                WinSortList::IMGFILE(n) => !has_star(lines@[i]@) && n@ == lines@[i]@,
            },
{
    let mut out: Vec<WinSortList> = Vec::new();
    let mut i: usize = 0;
    while i < lines.len()
        invariant
            i <= lines@.len(),
            out@.len() == i,
            forall|k: int|
                0 <= k < i ==> match #[trigger] out@[k] {
                    WinSortList::WILDCARD(p) => has_star(lines@[k]@) && p@ == lines@[k]@,
                    WinSortList::IMGFILE(n) => !has_star(lines@[k]@) && n@ == lines@[k]@,
                },
        decreases lines.len() - i,
    {
        let l = lines[i].clone();
        if holds_star(&l) {
            out.push(WinSortList::WILDCARD(l));
        } else {
            out.push(WinSortList::IMGFILE(l));
        }
        i = i + 1;
    }
    out
}

/// The lines that store a sort list: each entry's text, in order.
pub fn winsort_to_lines(v: &Vec<WinSortList>) -> (r: Vec<String>)
    ensures
        r@.len() == v@.len(),
        forall|i: int|
            0 <= i < v@.len() ==> (#[trigger] r@[i])@ == match v@[i] {
                WinSortList::WILDCARD(p) => p@,
                WinSortList::IMGFILE(n) => n@,
            },
{
    let mut out: Vec<String> = Vec::new();
    let mut i: usize = 0;
    while i < v.len()
        invariant
            i <= v@.len(),
            out@.len() == i,
            forall|k: int|
                0 <= k < i ==> (#[trigger] out@[k])@ == match v@[k] {
                    WinSortList::WILDCARD(p) => p@,
                    WinSortList::IMGFILE(n) => n@,
                },
        decreases v.len() - i,
    {
        let s = match &v[i] {
            WinSortList::WILDCARD(p) => p.clone(),
            WinSortList::IMGFILE(n) => n.clone(),
        };
        out.push(s);
        i = i + 1;
    }
    out
}

} // verus!
