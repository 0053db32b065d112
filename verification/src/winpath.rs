//! Windows paths held as text: prefixes, components, absolute paths and joining, as
//! `std::path` treats them on Windows.
//!
//! Both `\` and `/` separate components, except after a verbatim (`\\?\`) prefix, where only `\`
//! does. A path may start with a prefix: a drive (`C:`), a UNC share (`\\server\share`), a
//! device (`\\.\name`), or a verbatim prefix (`\\?\name`, `\\?\C:`, `\\?\UNC\server\share`); in
//! the markers `\\`, `?\`, `.\` and `UNC\` a `/` may stand for a `\`. Every prefix but a drive
//! implies a root.
//!
//! Components are written as their text: a prefix as written, the root as `\`, the current
//! directory as `.`, the parent as `..`. Two prefixes are equal when they name the same prefix
//! (`/` and `\` alike, a drive letter in either case); other components when their texts are.

use vstd::prelude::*;
use crate::text::{split, split_from, split_text, views, chars_of};
use crate::path::{named_pieces, lemma_split_at_separator, lemma_split_shift, lemma_split_concat,
    lemma_named_pieces_concat, lemma_named_pieces_of_empty_piece};

verus! {

/// Whether `c` separates components.
pub open spec fn is_sep_w(c: char) -> bool {
    c == '/' || c == '\\'
}

/// Whether `c` is an ASCII letter (a drive letter).
pub open spec fn is_ascii_letter(c: char) -> bool {
    ('a' <= c <= 'z') || ('A' <= c <= 'Z')
}

/// Whether `p[i]` is the prefix marker character `c` (`/` stands for `\`).
pub open spec fn mark(p: Seq<char>, i: int, c: char) -> bool {
    0 <= i < p.len() && if c == '\\' {
        is_sep_w(p[i])
    } else {
        p[i] == c
    }
}

/// Whether `p` starts with two separators.
pub open spec fn two_seps(p: Seq<char>) -> bool {
    mark(p, 0, '\\') && mark(p, 1, '\\')
}

/// Whether `p` starts with a verbatim marker `\\?\`.
pub open spec fn is_verbatim(p: Seq<char>) -> bool {
    two_seps(p) && mark(p, 2, '?') && mark(p, 3, '\\')
}

/// Whether `p` starts with `\\?\UNC\`.
pub open spec fn is_verbatim_unc(p: Seq<char>) -> bool {
    is_verbatim(p) && mark(p, 4, 'U') && mark(p, 5, 'N') && mark(p, 6, 'C') && mark(p, 7, '\\')
}

/// Whether `p` starts with a device marker `\\.\`.
pub open spec fn is_device(p: Seq<char>) -> bool {
    two_seps(p) && !is_verbatim(p) && mark(p, 2, '.') && mark(p, 3, '\\')
}

/// Whether `p` starts with a drive, like `C:`.
pub open spec fn is_disk(p: Seq<char>) -> bool {
    p.len() >= 2 && is_ascii_letter(p[0]) && p[1] == ':'
}

/// The index of the first separator at or after `i` (only `\` when `verbatim`), or the length.
pub open spec fn next_stop(p: Seq<char>, i: int, verbatim: bool) -> int
    decreases p.len() - i,
{
    if i < 0 || i >= p.len() {
        p.len() as int
    } else if (if verbatim {
        p[i] == '\\'
    } else {
        is_sep_w(p[i])
    }) {
        i
    } else {
        next_stop(p, i + 1, verbatim)
    }
}

/// The length of the two-component prefix (server, share) whose first component starts at
/// `start`; the share may be empty only when `verbatim`. Zero when there is no such prefix.
pub open spec fn two_part_prefix_len(p: Seq<char>, start: int, verbatim: bool) -> int {
    let a = next_stop(p, start, verbatim);
    if a >= p.len() {
        if verbatim {
            a
        } else {
            0
        }
    } else if !verbatim && a == start {
        0
    } else {
        let b = next_stop(p, a + 1, verbatim);
        if b == a + 1 {
            if verbatim {
                a
            } else {
                0
            }
        } else {
            b
        }
    }
}

/// The length of the prefix of `p` (zero when it has none).
pub open spec fn prefix_len(p: Seq<char>) -> int {
    if is_verbatim_unc(p) {
        two_part_prefix_len(p, 8, true)
    } else if is_verbatim(p) {
        next_stop(p, 4, true)
    } else if is_device(p) {
        next_stop(p, 4, false)
    } else if two_seps(p) {
        two_part_prefix_len(p, 2, false)
    } else if is_disk(p) {
        2
    } else {
        0
    }
}

/// Whether a separator follows the prefix.
pub open spec fn has_physical_root(p: Seq<char>) -> bool {
    prefix_len(p) < p.len() && is_sep_w(p[prefix_len(p)])
}

/// Whether `p` has a root: a separator after its prefix, or a prefix other than a drive.
pub open spec fn has_root_w(p: Seq<char>) -> bool {
    has_physical_root(p) || (prefix_len(p) > 0 && !is_disk(p))
}

/// Whether `p` is absolute: it has both a prefix and a root.
pub open spec fn is_absolute_w(p: Seq<char>) -> bool {
    prefix_len(p) > 0 && has_root_w(p)
}

/// Whether `p`, having no root, starts (after its prefix) with a `.` component.
pub open spec fn starts_with_cur_dir_w(p: Seq<char>) -> bool {
    let r = p.skip(prefix_len(p));
    !has_root_w(p) && r.len() > 0 && r[0] == '.' && (r.len() == 1 || is_sep_w(r[1]))
}

/// The pieces of `s` between separators (`\` or `/`).
pub open spec fn split_both(s: Seq<char>) -> Seq<Seq<char>> {
    split_each(split(s, '/'))
}

/// The pieces of each of `ps` between `\` separators, in order.
pub open spec fn split_each(ps: Seq<Seq<char>>) -> Seq<Seq<char>>
    decreases ps.len(),
{
    if ps.len() == 0 {
        Seq::empty()
    } else {
        split_each(ps.drop_last()) + split(ps.last(), '\\')
    }
}

/// The pieces of `ps` that are not empty.
pub open spec fn nonempty_pieces(ps: Seq<Seq<char>>) -> Seq<Seq<char>>
    decreases ps.len(),
{
    if ps.len() == 0 {
        Seq::empty()
    } else {
        let rest = nonempty_pieces(ps.drop_last());
        if ps.last().len() == 0 {
            rest
        } else {
            rest.push(ps.last())
        }
    }
}

/// The components after the prefix: pieces between separators, without empty ones and, unless
/// the prefix is verbatim, without `.`.
pub open spec fn body_components_w(p: Seq<char>) -> Seq<Seq<char>> {
    let r = p.skip(prefix_len(p));
    if is_verbatim(p) {
        nonempty_pieces(split(r, '\\'))
    } else {
        named_pieces(split_both(r))
    }
}

/// The components of the Windows path `p`.
pub open spec fn components_w(p: Seq<char>) -> Seq<Seq<char>> {
    let plen = prefix_len(p);
    let pre: Seq<Seq<char>> = if plen > 0 {
        seq![p.take(plen)]
    } else {
        Seq::empty()
    };
    let root: Seq<Seq<char>> = if has_root_w(p) {
        seq![seq!['\\']]
    } else {
        Seq::empty()
    };
    let cur: Seq<Seq<char>> = if starts_with_cur_dir_w(p) {
        seq![seq!['.']]
    } else {
        Seq::empty()
    };
    pre + root + cur + body_components_w(p)
}

/// Whether `t` is the text of a prefix on its own.
pub open spec fn is_prefix_text(t: Seq<char>) -> bool {
    t.len() > 0 && prefix_len(t) == t.len()
}

/// Whether `k` indexes the drive letter of a drive prefix `t`: `C:`, or `\\?\C:`.
pub open spec fn drive_letter_at(t: Seq<char>, k: int) -> bool {
    ||| (k == 0 && t.len() == 2 && is_disk(t))
    ||| (k == 4 && t.len() == 6 && is_verbatim(t) && is_ascii_letter(t[4]) && t[5] == ':')
}

/// Whether `x` and `y` are the same letter, in either case.
pub open spec fn same_letter_any_case(x: char, y: char) -> bool {
    x == y || (is_ascii_letter(x) && is_ascii_letter(y) && ((x as u32) + 32 == (y as u32) || (
    y as u32) + 32 == (x as u32)))
}

/// Whether the prefix texts `t` and `u` name the same prefix: `/` and `\` are alike, and a drive
/// letter matches in either case (the drive of a prefix is read as an upper-case letter).
pub open spec fn same_prefix_w(t: Seq<char>, u: Seq<char>) -> bool {
    &&& t.len() == u.len()
    &&& forall|k: int|
        0 <= k < t.len() ==> (t[k] == u[k] || (is_sep_w(t[k]) && is_sep_w(u[k])) || (
        drive_letter_at(t, k) && drive_letter_at(u, k) && same_letter_any_case(t[k], u[k])))
}

/// Whether the components `x` and `y`, both at index `i` of their paths, are equal as
/// `std::path` compares them: two prefixes by what they name, any other components by their text.
pub open spec fn same_component_w(x: Seq<char>, y: Seq<char>, i: int) -> bool {
    x == y || (i == 0 && is_prefix_text(x) && is_prefix_text(y) && same_prefix_w(x, y))
}

/// Whether a component of a list, at index `i`, names a directory (neither the prefix, the root,
/// `.` nor `..`), for a list that starts with a prefix.
pub open spec fn is_normal_at(c: Seq<char>, i: int) -> bool {
    i > 0 && c != seq!['\\'] && c != seq!['.'] && c != seq!['.', '.']
}

/// The components of a verbatim path after pushing the component `c` onto them: a root keeps
/// only the prefix, `.` is dropped, `..` removes a trailing directory.
pub open spec fn push_verbatim(buf: Seq<Seq<char>>, c: Seq<char>) -> Seq<Seq<char>> {
    if c == seq!['\\'] {
        (if buf.len() > 0 {
            buf.take(1)
        } else {
            buf
        }).push(c)
    } else if c == seq!['.'] {
        buf
    } else if c == seq!['.', '.'] {
        if buf.len() > 0 && is_normal_at(buf.last(), buf.len() - 1) {
            buf.drop_last()
        } else {
            buf
        }
    } else {
        buf.push(c)
    }
}

/// The components of a verbatim path after pushing each of `cs` in order.
pub open spec fn push_all_verbatim(buf: Seq<Seq<char>>, cs: Seq<Seq<char>>) -> Seq<Seq<char>>
    decreases cs.len(),
{
    if cs.len() == 0 {
        buf
    } else {
        push_verbatim(push_all_verbatim(buf, cs.drop_last()), cs.last())
    }
}

/// The text of a list of components of a verbatim path, and whether a separator must come
/// before the next component: components are separated by `\`, but nothing follows the root
/// or a drive prefix directly.
pub open spec fn assemble(cs: Seq<Seq<char>>) -> (Seq<char>, bool)
    decreases cs.len(),
{
    if cs.len() == 0 {
        (Seq::empty(), false)
    } else {
        let (t, need_sep) = assemble(cs.drop_last());
        let c = cs.last();
        let text = if need_sep && c != seq!['\\'] {
            t + seq!['\\'] + c
        } else {
            t + c
        };
        let next = if c == seq!['\\'] {
            false
        } else if cs.len() == 1 {
            !is_disk(c) && c.len() > 0
        } else {
            true
        };
        (text, next)
    }
}

/// `base` extended by `p` (`PathBuf::push` on Windows): a `p` that is absolute or has a prefix
/// replaces `base`; onto a verbatim `base` the components of `p` are pushed one by one; a `p`
/// with a root keeps only the prefix of `base`; otherwise a `\` is put between them unless `base`
/// is empty, ends with a separator, or is a bare drive.
pub open spec fn join_w(base: Seq<char>, p: Seq<char>) -> Seq<char> {
    let need_sep = base.len() > 0 && !is_sep_w(base.last()) && !(prefix_len(base) == base.len()
        && is_disk(base));
    if is_absolute_w(p) || prefix_len(p) > 0 {
        p
    } else if is_verbatim(base) && p.len() > 0 {
        assemble(push_all_verbatim(components_w(base), components_w(p))).0
    } else if has_root_w(p) {
        base.take(prefix_len(base)) + p
    } else if need_sep {
        base + seq!['\\'] + p
    } else {
        base + p
    }
}


// ---------------------------------------------------------------------------
// Computing on Windows paths
// ---------------------------------------------------------------------------

fn is_sep_w_char(c: char) -> (b: bool)
    ensures
        b == is_sep_w(c),
{
    c == '/' || c == '\\'
}

fn mark_exec(v: &Vec<char>, i: usize, c: char) -> (b: bool)
    ensures
        b == mark(v@, i as int, c),
{
    if i >= v.len() {
        false
    } else if c == '\\' {
        is_sep_w_char(v[i])
    } else {
        v[i] == c
    }
}

fn stops_at(c: char, verbatim: bool) -> (b: bool)
    ensures
        b == (if verbatim {
            c == '\\'
        } else {
            is_sep_w(c)
        }),
{
    if verbatim {
        c == '\\'
    } else {
        is_sep_w_char(c)
    }
}

fn next_stop_exec(v: &Vec<char>, i: usize, verbatim: bool) -> (r: usize)
    ensures
        r as int == next_stop(v@, i as int, verbatim),
{
    let mut j = i;
    while j < v.len() && !stops_at(v[j], verbatim)
        invariant
            i <= j,
            next_stop(v@, i as int, verbatim) == next_stop(v@, j as int, verbatim),
        decreases v.len() - j,
    {
        j = j + 1;
    }
    if j > v.len() {
        v.len()
    } else {
        j
    }
}

fn two_part_prefix_len_exec(v: &Vec<char>, start: usize, verbatim: bool) -> (r: usize)
    requires
        start <= v.len(),
    ensures
        r as int == two_part_prefix_len(v@, start as int, verbatim),
{
    let a = next_stop_exec(v, start, verbatim);
    if a >= v.len() {
        if verbatim {
            a
        } else {
            0
        }
    } else if !verbatim && a == start {
        0
    } else {
        let b = next_stop_exec(v, a + 1, verbatim);
        if b == a + 1 {
            if verbatim {
                a
            } else {
                0
            }
        } else {
            b
        }
    }
}

fn is_verbatim_exec(v: &Vec<char>) -> (b: bool)
    ensures
        b == is_verbatim(v@),
{
    mark_exec(v, 0, '\\') && mark_exec(v, 1, '\\') && mark_exec(v, 2, '?') && mark_exec(v, 3, '\\')
}

fn is_disk_exec(v: &Vec<char>) -> (b: bool)
    ensures
        b == is_disk(v@),
{
    v.len() >= 2 && (('a' <= v[0] && v[0] <= 'z') || ('A' <= v[0] && v[0] <= 'Z')) && v[1] == ':'
}

fn prefix_len_exec(v: &Vec<char>) -> (r: usize)
    ensures
        r as int == prefix_len(v@),
        r <= v.len(),
{
    proof {
        lemma_next_stop_bound(v@, 4, true);
        lemma_next_stop_bound(v@, 4, false);
        lemma_next_stop_bound(v@, 8, true);
        lemma_two_part_bound(v@, 8, true);
        lemma_two_part_bound(v@, 2, false);
    }
    let two = mark_exec(v, 0, '\\') && mark_exec(v, 1, '\\');
    let verbatim = is_verbatim_exec(v);
    if verbatim && mark_exec(v, 4, 'U') && mark_exec(v, 5, 'N') && mark_exec(v, 6, 'C') && mark_exec(
        v,
        7,
        '\\',
    ) {
        two_part_prefix_len_exec(v, 8, true)
    } else if verbatim {
        next_stop_exec(v, 4, true)
    } else if two && mark_exec(v, 2, '.') && mark_exec(v, 3, '\\') {
        next_stop_exec(v, 4, false)
    } else if two {
        two_part_prefix_len_exec(v, 2, false)
    } else if is_disk_exec(v) {
        2
    } else {
        0
    }
}

proof fn lemma_next_stop_bound(p: Seq<char>, i: int, verbatim: bool)
    ensures
        next_stop(p, i, verbatim) <= p.len(),
        0 <= i <= p.len() ==> i <= next_stop(p, i, verbatim),
        0 <= i ==> next_stop(p, i, verbatim) >= 0,
    decreases p.len() - i,
{
    if 0 <= i < p.len() {
        lemma_next_stop_bound(p, i + 1, verbatim);
    }
}

proof fn lemma_two_part_bound(p: Seq<char>, start: int, verbatim: bool)
    requires
        0 <= start,
    ensures
        0 <= two_part_prefix_len(p, start, verbatim) <= p.len(),
{
    lemma_next_stop_bound(p, start, verbatim);
    let a = next_stop(p, start, verbatim);
    lemma_next_stop_bound(p, a + 1, verbatim);
}

fn drive_letter_at_exec(v: &Vec<char>, k: usize) -> (b: bool)
    ensures
        b == drive_letter_at(v@, k as int),
{
    (k == 0 && v.len() == 2 && is_disk_exec(v)) || (k == 4 && v.len() == 6 && is_verbatim_exec(v)
        && (('a' <= v[4] && v[4] <= 'z') || ('A' <= v[4] && v[4] <= 'Z')) && v[5] == ':')
}

fn same_letter_any_case_exec(x: char, y: char) -> (b: bool)
    ensures
        b == same_letter_any_case(x, y),
{
    let xl = ('a' <= x && x <= 'z') || ('A' <= x && x <= 'Z');
    let yl = ('a' <= y && y <= 'z') || ('A' <= y && y <= 'Z');
    if x == y {
        true
    } else if xl && yl {
        let xu = x as u32;
        let yu = y as u32;
        xu + 32 == yu || yu + 32 == xu
    } else {
        false
    }
}

/// Whether the components `x` and `y`, both at index `i` of their paths, are equal as
/// `std::path` compares them on Windows.
pub fn same_component_w_text(x: &str, y: &str, i: usize) -> (b: bool)
    ensures
        b == same_component_w(x@, y@, i as int),
{
    let v = chars_of(x);
    let w = chars_of(y);
    if v.len() == w.len() {
        let mut k: usize = 0;
        let mut equal = true;
        while k < v.len()
            invariant
                k <= v.len() == w.len(),
                v@ == x@,
                w@ == y@,
                equal == (forall|m: int| 0 <= m < k ==> v@[m] == w@[m]),
            decreases v.len() - k,
        {
            if v[k] != w[k] {
                equal = false;
            }
            k = k + 1;
        }
        if equal {
            assert(x@ =~= y@);
            return true;
        }
    }
    if i != 0 || v.len() == 0 || v.len() != w.len() {
        return false;
    }
    let pv = prefix_len_exec(&v);
    let pw = prefix_len_exec(&w);
    if pv != v.len() || pw != w.len() {
        return false;
    }
    let mut k: usize = 0;
    while k < v.len()
        invariant
            k <= v.len() == w.len(),
            v@ == x@,
            w@ == y@,
            forall|m: int|
                0 <= m < k ==> (v@[m] == w@[m] || (is_sep_w(v@[m]) && is_sep_w(w@[m])) || (
                drive_letter_at(v@, m) && drive_letter_at(w@, m) && same_letter_any_case(
                    v@[m],
                    w@[m],
                ))),
        decreases v.len() - k,
    {
        let ok = v[k] == w[k] || (is_sep_w_char(v[k]) && is_sep_w_char(w[k])) || (
        drive_letter_at_exec(&v, k) && drive_letter_at_exec(&w, k) && same_letter_any_case_exec(
            v[k],
            w[k],
        ));
        if !ok {
            return false;
        }
        k = k + 1;
    }
    true
}

/// The pieces of `s` between separators (`\` or `/`).
pub fn split_both_text(s: &str) -> (r: Vec<String>)
    ensures
        views(r@) == split_both(s@),
{
    let outer = split_text(s, '/');
    let mut out: Vec<String> = Vec::new();
    let mut i: usize = 0;
    assert(views(outer@).subrange(0, 0) =~= Seq::<Seq<char>>::empty());
    while i < outer.len()
        invariant
            i <= outer.len(),
            views(outer@) == split(s@, '/'),
            views(out@) == split_each(views(outer@).subrange(0, i as int)),
        decreases outer.len() - i,
    {
        let inner = split_text(outer[i].as_str(), '\\');
        let ghost before = views(out@);
        let mut k: usize = 0;
        assert(views(inner@).subrange(0, 0) =~= Seq::<Seq<char>>::empty());
        assert(before + views(inner@).subrange(0, 0) =~= before);
        while k < inner.len()
            invariant
                k <= inner.len(),
                views(out@) == before + views(inner@).subrange(0, k as int),
            decreases inner.len() - k,
        {
            let ghost prev = out@;
            out.push(inner[k].clone());
            assert(views(out@) =~= views(prev).push(inner@[k as int]@));
            assert(views(inner@).subrange(0, k + 1) =~= views(inner@).subrange(0, k as int).push(
                inner@[k as int]@,
            ));
            k = k + 1;
        }
        assert(views(inner@).subrange(0, inner.len() as int) =~= views(inner@));
        assert(views(outer@).subrange(0, i + 1).drop_last() =~= views(outer@).subrange(0, i as int));
        assert(views(outer@).subrange(0, i + 1).last() == outer@[i as int]@);
        i = i + 1;
    }
    assert(views(outer@).subrange(0, outer.len() as int) =~= views(outer@));
    out
}

/// The pieces of `v` that are not empty (with `keep_dot`) or that are neither empty nor `.`.
fn filter_pieces(v: &Vec<String>, keep_dot: bool) -> (r: Vec<String>)
    ensures
        views(r@) == (if keep_dot {
            nonempty_pieces(views(v@))
        } else {
            named_pieces(views(v@))
        }),
{
    let mut out: Vec<String> = Vec::new();
    let mut i: usize = 0;
    let dot = String::from_str(".");
    proof {
        reveal_strlit(".");
    }
    assert(dot@ =~= seq!['.']);
    assert(views(v@).subrange(0, 0) =~= Seq::<Seq<char>>::empty());
    while i < v.len()
        invariant
            i <= v.len(),
            dot@ == seq!['.'],
            views(out@) == (if keep_dot {
                nonempty_pieces(views(v@).subrange(0, i as int))
            } else {
                named_pieces(views(v@).subrange(0, i as int))
            }),
        decreases v.len() - i,
    {
        let ghost after = views(v@).subrange(0, i + 1);
        assert(after.drop_last() =~= views(v@).subrange(0, i as int));
        assert(after.last() == v@[i as int]@);
        let empty = v[i].as_str().unicode_len() == 0;
        let is_dot = v[i] == dot;
        if !empty && (keep_dot || !is_dot) {
            let ghost prev = out@;
            out.push(v[i].clone());
            assert(views(out@) =~= views(prev).push(v@[i as int]@));
        }
        i = i + 1;
    }
    assert(views(v@).subrange(0, v.len() as int) =~= views(v@));
    out
}

/// The components of the Windows path `p`.
pub fn components_w_text(p: &str) -> (r: Vec<String>)
    ensures
        views(r@) == components_w(p@),
{
    let v = chars_of(p);
    let plen = prefix_len_exec(&v);
    let n = v.len();
    let verbatim = is_verbatim_exec(&v);
    let physical_root = plen < n && is_sep_w_char(v[plen]);
    let has_root = physical_root || (plen > 0 && !is_disk_exec(&v));
    assert(has_root == has_root_w(p@));
    let mut out: Vec<String> = Vec::new();
    if plen > 0 {
        out.push(String::from_str(p.substring_char(0, plen)));
    }
    proof {
        reveal_strlit("\\");
        reveal_strlit(".");
    }
    if has_root {
        let r = String::from_str("\\");
        assert(r@ =~= seq!['\\']);
        out.push(r);
    }
    let rest = p.substring_char(plen, n);
    assert(rest@ =~= p@.skip(plen as int));
    let rv = chars_of(rest);
    let cur = !has_root && rv.len() > 0 && rv[0] == '.' && (rv.len() == 1 || is_sep_w_char(rv[1]));
    assert(cur == starts_with_cur_dir_w(p@));
    if cur {
        let d = String::from_str(".");
        assert(d@ =~= seq!['.']);
        out.push(d);
    }
    let ghost head = views(out@);
    assert(head =~= (if plen > 0 {
        seq![p@.take(plen as int)]
    } else {
        Seq::<Seq<char>>::empty()
    }) + (if has_root {
        seq![seq!['\\']]
    } else {
        Seq::<Seq<char>>::empty()
    }) + (if cur {
        seq![seq!['.']]
    } else {
        Seq::<Seq<char>>::empty()
    }));
    let body = if verbatim {
        let pieces = split_text(rest, '\\');
        filter_pieces(&pieces, true)
    } else {
        let pieces = split_both_text(rest);
        filter_pieces(&pieces, false)
    };
    assert(views(body@) == body_components_w(p@));
    let mut k: usize = 0;
    assert(views(body@).subrange(0, 0) =~= Seq::<Seq<char>>::empty());
    assert(head + views(body@).subrange(0, 0) =~= head);
    while k < body.len()
        invariant
            k <= body.len(),
            views(out@) == head + views(body@).subrange(0, k as int),
        decreases body.len() - k,
    {
        let ghost prev = out@;
        out.push(body[k].clone());
        assert(views(out@) =~= views(prev).push(body@[k as int]@));
        assert(views(body@).subrange(0, k + 1) =~= views(body@).subrange(0, k as int).push(
            body@[k as int]@,
        ));
        k = k + 1;
    }
    assert(views(body@).subrange(0, body.len() as int) =~= views(body@));
    out
}

/// Whether the Windows path `p` is absolute.
pub fn is_absolute_w_text(p: &str) -> (b: bool)
    ensures
        b == is_absolute_w(p@),
{
    let v = chars_of(p);
    let plen = prefix_len_exec(&v);
    let physical_root = plen < v.len() && is_sep_w_char(v[plen]);
    plen > 0 && (physical_root || !is_disk_exec(&v))
}


fn push_verbatim_exec(buf: &mut Vec<String>, c: String)
    ensures
        views(final(buf)@) == push_verbatim(views(old(buf)@), c@),
{
    let root = String::from_str("\\");
    let dot = String::from_str(".");
    let dots = String::from_str("..");
    proof {
        reveal_strlit("\\");
        reveal_strlit(".");
        reveal_strlit("..");
    }
    assert(root@ =~= seq!['\\']);
    assert(dot@ =~= seq!['.']);
    assert(dots@ =~= seq!['.', '.']);
    let ghost old_v = views(buf@);
    if c == root {
        buf.truncate(1);
        buf.push(c);
        assert(views(buf@) =~= (if old_v.len() > 0 {
            old_v.take(1)
        } else {
            old_v
        }).push(seq!['\\']));
    } else if c == dot {
    } else if c == dots {
        let n = buf.len();
        if n > 0 {
            let last_normal = n - 1 > 0 && buf[n - 1] != root && buf[n - 1] != dot && buf[n - 1]
                != dots;
            assert(last_normal == is_normal_at(old_v.last(), old_v.len() - 1));
            if last_normal {
                buf.pop();
                assert(views(buf@) =~= old_v.drop_last());
            }
        }
    } else {
        let ghost cv = c@;
        buf.push(c);
        assert(views(buf@) =~= old_v.push(cv));
    }
}

fn assemble_exec(cs: &Vec<String>) -> (r: String)
    ensures
        r@ == assemble(views(cs@)).0,
{
    let mut text = String::new();
    let mut need_sep = false;
    let mut i: usize = 0;
    let root = String::from_str("\\");
    proof {
        reveal_strlit("\\");
    }
    assert(root@ =~= seq!['\\']);
    assert(views(cs@).subrange(0, 0) =~= Seq::<Seq<char>>::empty());
    while i < cs.len()
        invariant
            i <= cs.len(),
            root@ == seq!['\\'],
            (text@, need_sep) == assemble(views(cs@).subrange(0, i as int)),
        decreases cs.len() - i,
    {
        let ghost sub = views(cs@).subrange(0, i + 1);
        assert(sub.drop_last() =~= views(cs@).subrange(0, i as int));
        assert(sub.last() == cs@[i as int]@);
        proof {
            reveal_strlit("\\");
        }
        let c = &cs[i];
        let is_root = *c == root;
        let ghost t0 = text@;
        if need_sep && !is_root {
            text.append("\\");
            assert(text@ =~= t0 + seq!['\\']);
        }
        text.append(c.as_str());
        need_sep = if is_root {
            false
        } else if i == 0 {
            let cv = chars_of(c.as_str());
            !is_disk_exec(&cv) && cv.len() > 0
        } else {
            true
        };
        i = i + 1;
    }
    assert(views(cs@).subrange(0, cs.len() as int) =~= views(cs@));
    text
}

/// `base` extended by `p`, as `PathBuf::push` does on Windows.
pub fn join_w_text(base: &str, p: &str) -> (r: String)
    ensures
        r@ == join_w(base@, p@),
{
    let bv = chars_of(base);
    let pv = chars_of(p);
    let bplen = prefix_len_exec(&bv);
    let pplen = prefix_len_exec(&pv);
    let need_sep = bv.len() > 0 && !is_sep_w_char(bv[bv.len() - 1]) && !(bplen == bv.len()
        && is_disk_exec(&bv));
    let p_phys_root = pplen < pv.len() && is_sep_w_char(pv[pplen]);
    let p_has_root = p_phys_root || (pplen > 0 && !is_disk_exec(&pv));
    if (pplen > 0 && p_has_root) || pplen > 0 {
        String::from_str(p)
    } else if is_verbatim_exec(&bv) && pv.len() > 0 {
        let mut buf = components_w_text(base);
        let add = components_w_text(p);
        let mut i: usize = 0;
        let ghost b0 = views(buf@);
        assert(views(add@).subrange(0, 0) =~= Seq::<Seq<char>>::empty());
        while i < add.len()
            invariant
                i <= add.len(),
                views(buf@) == push_all_verbatim(b0, views(add@).subrange(0, i as int)),
            decreases add.len() - i,
        {
            let ghost sub = views(add@).subrange(0, i + 1);
            assert(sub.drop_last() =~= views(add@).subrange(0, i as int));
            assert(sub.last() == add@[i as int]@);
            push_verbatim_exec(&mut buf, add[i].clone());
            i = i + 1;
        }
        assert(views(add@).subrange(0, add.len() as int) =~= views(add@));
        assemble_exec(&buf)
    } else if p_has_root {
        String::from_str(base.substring_char(0, bplen)).concat(p)
    } else if need_sep {
        proof {
            reveal_strlit("\\");
        }
        String::from_str(base).concat("\\").concat(p)
    } else {
        String::from_str(base).concat(p)
    }
}


// ---------------------------------------------------------------------------
// Joining stays within the base
// ---------------------------------------------------------------------------

/// Scanning past text without a separator leaves the pieces unchanged.
proof fn lemma_split_from_skip(s: Seq<char>, sep: char, start: int, i: int, j: int)
    requires
        0 <= start <= i <= j <= s.len(),
        forall|k: int| i <= k < j ==> s[k] != sep,
    ensures
        split_from(s, sep, start, i) == split_from(s, sep, start, j),
    decreases j - i,
{
    if i < j {
        lemma_split_from_skip(s, sep, start, i + 1, j);
    }
}

/// Splitting `pre + y` from inside `y` gives the pieces of `y`, the first one behind `pre`.
proof fn lemma_split_from_behind(pre: Seq<char>, y: Seq<char>, sep: char, j: int)
    requires
        0 <= j <= y.len(),
    ensures
        split_from(y, sep, 0, j).len() >= 1,
        split_from(pre + y, sep, 0, pre.len() + j) == split_from(y, sep, 0, j).update(
            0,
            pre + split_from(y, sep, 0, j)[0],
        ),
    decreases y.len() - j,
{
    let s = pre + y;
    let i = pre.len() + j;
    let t = split_from(y, sep, 0, j);
    if j >= y.len() {
        assert(s.subrange(0, s.len() as int) =~= pre + y.subrange(0, y.len() as int));
        assert(t.update(0, pre + t[0]) =~= seq![s.subrange(0, s.len() as int)]);
    } else if y[j] == sep {
        assert(s[i] == sep);
        lemma_split_shift(s, sep, pre.len() as int, i + 1, i + 1);
        assert(s.subrange(pre.len() as int, s.len() as int) =~= y);
        assert(s.subrange(0, i) =~= pre + y.subrange(0, j));
        assert(t.update(0, pre + t[0]) =~= seq![s.subrange(0, i)] + split_from(y, sep, j + 1, j + 1));
    } else {
        assert(s[i] == y[j]);
        lemma_split_from_behind(pre, y, sep, j + 1);
    }
}

/// The pieces of `x`, a character `c` that is not the separator, then `y`: those of `x` and `y`,
/// where the last piece of `x`, `c` and the first piece of `y` make one piece.
proof fn lemma_split_glue(x: Seq<char>, c: char, y: Seq<char>, sep: char)
    requires
        c != sep,
    ensures
        split(x, sep).len() >= 1,
        split(y, sep).len() >= 1,
        split(x + seq![c] + y, sep) == split(x, sep).drop_last() + seq![
            split(x, sep).last() + seq![c] + split(y, sep)[0],
        ] + split(y, sep).drop_first(),
    decreases x.len(),
{
    let s = x + seq![c] + y;
    let n = x.len() as int;
    lemma_split_from_behind(Seq::<char>::empty(), y, sep, 0);
    if exists|k: int| 0 <= k < n && x[k] == sep {
        let k = choose|k: int| 0 <= k < n && x[k] == sep;
        let x2 = x.subrange(k + 1, n);
        let x1 = x.subrange(0, k);
        lemma_split_glue(x2, c, y, sep);
        assert(x =~= x1 + seq![sep] + x2);
        lemma_split_concat(x1, sep, x2);
        assert(s[k] == sep);
        lemma_split_at_separator(s, sep, 0, 0, k);
        assert(s.subrange(0, k) =~= x1);
        lemma_split_shift(s, sep, k + 1, k + 1, k + 1);
        assert(s.subrange(k + 1, s.len() as int) =~= x2 + seq![c] + y);
        let a = split(x1, sep);
        let b = split(x2, sep);
        assert((a + b).drop_last() =~= a + b.drop_last());
        assert((a + b).last() == b.last());
        assert(a + (b.drop_last() + seq![b.last() + seq![c] + split(y, sep)[0]]
            + split(y, sep).drop_first()) =~= (a + b).drop_last() + seq![
            (a + b).last() + seq![c] + split(y, sep)[0],
        ] + split(y, sep).drop_first());
    } else {
        lemma_split_from_skip(x, sep, 0, 0, n);
        assert(split(x, sep) =~= seq![x]) by {
            assert(x.subrange(0, n) =~= x);
        }
        lemma_split_from_skip(s, sep, 0, 0, n + 1);
        assert(s =~= (x + seq![c]) + y);
        lemma_split_from_behind(x + seq![c], y, sep, 0);
        let t = split(y, sep);
        assert(t.update(0, x + seq![c] + t[0]) =~= seq![x].drop_last() + seq![
            seq![x].last() + seq![c] + t[0],
        ] + t.drop_first());
    }
}

/// Splitting each of two lists splits each on its own.
proof fn lemma_split_each_concat(a: Seq<Seq<char>>, b: Seq<Seq<char>>)
    ensures
        split_each(a + b) == split_each(a) + split_each(b),
    decreases b.len(),
{
    if b.len() == 0 {
        assert(a + b =~= a);
        assert(split_each(a) + split_each(b) =~= split_each(a));
    } else {
        assert((a + b).drop_last() =~= a + b.drop_last());
        assert((a + b).last() == b.last());
        lemma_split_each_concat(a, b.drop_last());
        assert(split_each(a) + split_each(b.drop_last()) + split(b.last(), '\\') =~= split_each(a)
            + (split_each(b.drop_last()) + split(b.last(), '\\')));
    }
}

/// A separator between `x` and `y` splits them apart.
proof fn lemma_split_both_concat(x: Seq<char>, c: char, y: Seq<char>)
    requires
        is_sep_w(c),
    ensures
        split_both(x + seq![c] + y) == split_both(x) + split_both(y),
{
    let xs = split(x, '/');
    let ys = split(y, '/');
    if c == '/' {
        lemma_split_concat(x, '/', y);
        lemma_split_each_concat(xs, ys);
    } else {
        lemma_split_glue(x, c, y, '/');
        let glued = xs.last() + seq![c] + ys[0];
        lemma_split_concat(xs.last(), '\\', ys[0]);
        let one = seq![glued];
        assert(one.drop_last() =~= Seq::<Seq<char>>::empty());
        assert(split_each(one.drop_last()) =~= Seq::<Seq<char>>::empty());
        assert(split_each(one) =~= split(glued, '\\'));
        lemma_split_each_concat(xs.drop_last(), one);
        lemma_split_each_concat(xs.drop_last() + one, ys.drop_first());
        assert(xs.drop_last().push(xs.last()) =~= xs);
        let y0 = seq![ys[0]];
        assert(y0.drop_last() =~= Seq::<Seq<char>>::empty());
        assert(split_each(y0.drop_last()) =~= Seq::<Seq<char>>::empty());
        assert(y0 + ys.drop_first() =~= ys);
        lemma_split_each_concat(y0, ys.drop_first());
        assert(split_each(xs) =~= split_each(xs.drop_last()) + split(xs.last(), '\\'));
        assert(split_each(y0) =~= split(ys[0], '\\'));
        assert(split_each(xs.drop_last()) + split(glued, '\\') + split_each(ys.drop_first())
            =~= split_each(xs) + split_each(ys));
    }
}


/// Whether a join onto `b` may leave it: `b` has a verbatim prefix (where `..` removes
/// components), starts with two separators that begin no complete prefix, or has a prefix that
/// ends with a separator (so that text pushed onto `b` lengthens its prefix).
pub open spec fn join_may_leave(b: Seq<char>) -> bool {
    ||| is_verbatim(b)
    ||| (two_seps(b) && prefix_len(b) == 0)
    ||| (prefix_len(b) > 0 && is_sep_w(b[prefix_len(b) - 1]))
}

/// Text after `x` leaves a separator scan unchanged when the scan stops inside `x` or the text
/// starts with a separator.
proof fn lemma_next_stop_extend(x: Seq<char>, y: Seq<char>, i: int)
    requires
        0 <= i <= x.len(),
        next_stop(x, i, false) < x.len() || (y.len() > 0 && is_sep_w(y[0])),
    ensures
        next_stop(x + y, i, false) == next_stop(x, i, false),
    decreases x.len() - i,
{
    if i < x.len() {
        assert((x + y)[i] == x[i]);
        if !is_sep_w(x[i]) {
            lemma_next_stop_extend(x, y, i + 1);
        }
    } else {
        assert((x + y)[i] == y[0]);
    }
}

/// Pushing text onto `b` that keeps its prefix closed: a separator right after text that ends
/// otherwise, or text that does not start with one after a separator.
proof fn lemma_prefix_len_extend(b: Seq<char>, y: Seq<char>)
    requires
        b.len() > 0,
        !join_may_leave(b),
        y.len() > 0,
        !(prefix_len(b) == b.len() && is_disk(b)),
        is_sep_w(b.last()) ==> !is_sep_w(y[0]),
        !is_sep_w(b.last()) ==> is_sep_w(y[0]),
    ensures
        prefix_len(b + y) == prefix_len(b),
        !is_verbatim(b + y),
        is_disk(b + y) == is_disk(b),
{
    let j = b + y;
    let n = b.len() as int;
    assert(j[0] == b[0]);
    if n >= 2 {
        assert(j[1] == b[1]);
    } else {
        assert(j[1] == y[0]);
    }
    if n >= 3 {
        assert(j[2] == b[2]);
    }
    if n >= 4 {
        assert(j[3] == b[3]);
    }
    lemma_next_stop_bound(b, 2, false);
    lemma_next_stop_bound(b, 4, false);
    if two_seps(b) {
        // A complete prefix after two separators needs at least five characters.
        let a = next_stop(b, 2, false);
        if n < 5 {
            if is_device(b) {
                assert(n == 4);
                assert(prefix_len(b) == 4);
            } else {
                lemma_next_stop_bound(b, a + 1, false);
                assert(prefix_len(b) == 0);
            }
        }
        assert(n >= 5);
        if is_device(b) {
            let l = next_stop(b, 4, false);
            if l == n {
                assert(b.last() == b[l - 1]);
            }
            lemma_next_stop_extend(b, y, 4);
        } else {
            let l = prefix_len(b);
            lemma_next_stop_extend(b, y, 2);
            lemma_next_stop_bound(b, a + 1, false);
            let bb = next_stop(b, a + 1, false);
            if bb == n {
                assert(l == bb);
                assert(b.last() == b[l - 1]);
            }
            lemma_next_stop_extend(b, y, a + 1);
        }
    }
}


/// The components of the empty path: none.
proof fn lemma_components_w_empty()
    ensures
        components_w(Seq::<char>::empty()) == Seq::<Seq<char>>::empty(),
{
    let e = Seq::<char>::empty();
    assert(split(e, '/') =~= seq![e]) by {
        assert(e.subrange(0, 0) =~= e);
    }
    assert(split(e, '\\') =~= seq![e]) by {
        assert(e.subrange(0, 0) =~= e);
    }
    let one = seq![e];
    assert(one.drop_last() =~= Seq::<Seq<char>>::empty());
    assert(split_each(one.drop_last()) =~= Seq::<Seq<char>>::empty());
    assert(split_both(e) =~= one);
    lemma_named_pieces_of_empty_piece();
    assert(e.skip(0) =~= e);
    assert(body_components_w(e) =~= Seq::<Seq<char>>::empty());
    assert(components_w(e) =~= Seq::<Seq<char>>::empty());
}

/// The components of `b` extended by `y`, where `b` ends with a separator or `y` starts with one
/// and the prefix of `b` stays: those of `b`, then the named pieces of `y`.
proof fn lemma_components_w_extend(b: Seq<char>, x: Seq<char>, c: char, p: Seq<char>)
    requires
        b.len() > 0,
        !join_may_leave(b),
        !(prefix_len(b) == b.len() && is_disk(b)),
        is_sep_w(c),
        p.len() > 0 ==> !is_sep_w(p[0]),
        (b == x + seq![c] && p.len() > 0) || (b == x && !is_sep_w(b.last())),
    ensures
        components_w(x + seq![c] + p) == components_w(b) + named_pieces(split_both(p)),
{
    let j = x + seq![c] + p;
    let n = b.len() as int;
    let y = j.subrange(n, j.len() as int);
    assert(j =~= b + y);
    assert(y.len() > 0);
    if b == x + seq![c] {
        assert(y =~= p);
    } else {
        assert(y[0] == c);
    }
    lemma_prefix_len_extend(b, y);
    let l = prefix_len(b);
    lemma_prefix_len_bound(b);
    if l == n {
        assert(b.last() == b[l - 1]);
        assert(b == x);
    }
    let rb = b.skip(l);
    let rj = j.skip(l);
    assert(j.take(l) =~= b.take(l));
    // The root and a leading `.` are the same.
    if l < n {
        assert(j[l] == b[l]);
        assert(rj[0] == rb[0]);
        if rb.len() >= 2 {
            assert(rj[1] == rb[1]);
        } else {
            assert(rb.len() == 1);
            assert(rb[0] == b.last());
        }
    } else {
        assert(j[l] == c);
        assert(rj[0] == c);
    }
    assert(has_root_w(j) == has_root_w(b));
    assert(starts_with_cur_dir_w(j) == starts_with_cur_dir_w(b));
    // The pieces after the prefix.
    if b == x + seq![c] {
        assert(l < n);
        let r0 = rb.drop_last();
        assert(rb =~= r0 + seq![c] + Seq::<char>::empty());
        assert(rj =~= r0 + seq![c] + p);
        let e = Seq::<char>::empty();
        lemma_split_both_concat(r0, c, e);
        lemma_split_both_concat(r0, c, p);
        assert(split(e, '/') =~= seq![e]) by {
            assert(e.subrange(0, 0) =~= e);
        }
        assert(split(e, '\\') =~= seq![e]) by {
            assert(e.subrange(0, 0) =~= e);
        }
        let one = seq![e];
        assert(one.drop_last() =~= Seq::<Seq<char>>::empty());
        assert(split_each(one.drop_last()) =~= Seq::<Seq<char>>::empty());
        assert(split_both(e) =~= one);
        lemma_named_pieces_of_empty_piece();
        lemma_named_pieces_concat(split_both(r0), split_both(e));
        lemma_named_pieces_concat(split_both(r0), split_both(p));
        assert(body_components_w(b) =~= named_pieces(split_both(r0)));
        assert(body_components_w(j) =~= body_components_w(b) + named_pieces(split_both(p)));
    } else {
        assert(rj =~= rb + seq![c] + p);
        lemma_split_both_concat(rb, c, p);
        lemma_named_pieces_concat(split_both(rb), split_both(p));
        assert(body_components_w(j) =~= body_components_w(b) + named_pieces(split_both(p)));
    }
    assert(components_w(j) =~= components_w(b) + named_pieces(split_both(p)));
}

pub(crate) proof fn lemma_prefix_len_bound(p: Seq<char>)
    ensures
        0 <= prefix_len(p) <= p.len(),
{
    lemma_next_stop_bound(p, 4, true);
    lemma_next_stop_bound(p, 4, false);
    lemma_two_part_bound(p, 8, true);
    lemma_two_part_bound(p, 2, false);
}

/// A path with neither prefix nor root, joined onto a base that a join cannot leave, lies
/// within that base: the components of the base come first.
pub proof fn lemma_join_w_stays_within(base: Seq<char>, p: Seq<char>)
    requires
        prefix_len(p) == 0,
        !has_root_w(p),
        !join_may_leave(base),
    ensures
        components_w(base).len() <= components_w(join_w(base, p)).len(),
        components_w(join_w(base, p)).subrange(0, components_w(base).len() as int)
            == components_w(base),
{
    let j = join_w(base, p);
    let n = base.len() as int;
    assert(!is_absolute_w(p));
    if p.len() > 0 {
        assert(!has_physical_root(p));
    }
    lemma_prefix_len_bound(base);
    let need_sep = base.len() > 0 && !is_sep_w(base.last()) && !(prefix_len(base) == base.len()
        && is_disk(base));
    if n == 0 {
        assert(j =~= p);
        assert(base =~= Seq::<char>::empty());
        lemma_components_w_empty();
        assert(components_w(j).subrange(0, 0) =~= components_w(base));
    } else if need_sep {
        assert(j == base + seq!['\\'] + p);
        lemma_components_w_extend(base, base, '\\', p);
        assert(components_w(j).subrange(0, components_w(base).len() as int) =~= components_w(base));
    } else if p.len() == 0 {
        assert(j =~= base);
        assert(components_w(j).subrange(0, components_w(j).len() as int) =~= components_w(j));
    } else if prefix_len(base) == n && is_disk(base) {
        // A bare drive: the drive stays the prefix and is the only component of the base.
        assert(n == 2);
        assert(j == base + p);
        assert(j[0] == base[0] && j[1] == base[1]);
        assert(prefix_len(j) == 2);
        assert(j.take(2) =~= base);
        assert(base.take(2) =~= base);
        assert(!has_root_w(base));
        assert(base.skip(2) =~= Seq::<char>::empty());
        lemma_components_w_empty();
        assert(body_components_w(base) =~= body_components_w(Seq::<char>::empty())) by {
            assert(Seq::<char>::empty().skip(0) =~= Seq::<char>::empty());
        }
        assert(components_w(base) =~= seq![base]);
        assert(components_w(j)[0] == base);
        assert(components_w(j).subrange(0, 1) =~= components_w(base));
    } else {
        let x = base.drop_last();
        assert(base =~= x + seq![base.last()]);
        assert(j == base + p);
        assert(j =~= x + seq![base.last()] + p);
        lemma_components_w_extend(base, x, base.last(), p);
        assert(components_w(j).subrange(0, components_w(base).len() as int) =~= components_w(base));
    }
}

} // verus!
