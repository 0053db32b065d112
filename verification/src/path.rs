//! Paths held as text: absolute paths, joining, and component-wise prefixes, in the Unix or the
//! Windows style of `std::path` (see [`crate::winpath`] for the Windows style).
//!
//! A Unix path's components are those that `std::path::Path::components` yields on Unix: a root
//! `/` when the path starts with `/`, a leading `.` when a relative path starts with `./` (or is
//! `.`), then every non-empty piece between slashes other than `.`. Each component is written as
//! its text (`/` for the root), so two components are equal exactly when their texts are.

use vstd::prelude::*;
use crate::text::{split, split_from, split_text, views, chars_of};
use crate::winpath::{components_w, is_absolute_w, join_w, components_w_text, is_absolute_w_text, join_w_text,
    has_root_w, join_may_leave, prefix_len, lemma_join_w_stays_within, same_component_w,
    same_component_w_text};

verus! {

/// Which platform's path syntax applies.
#[derive(Debug, Clone, Copy, PartialEq, Eq, Structural)]
pub enum PathStyle {
    /// `/` separates components; no prefixes.
    Unix,
    /// `\` and `/` separate components; drive, UNC, device and verbatim prefixes.
    Windows,
}

/// The components of `p` in the given style.
pub open spec fn components_in(style: PathStyle, p: Seq<char>) -> Seq<Seq<char>> {
    match style {
        PathStyle::Unix => components(p),
        PathStyle::Windows => components_w(p),
    }
}

/// Whether `p` is absolute in the given style.
pub open spec fn is_absolute_in(style: PathStyle, p: Seq<char>) -> bool {
    match style {
        PathStyle::Unix => is_absolute(p),
        PathStyle::Windows => is_absolute_w(p),
    }
}

/// `base` extended by `p` in the given style (`PathBuf::push`).
pub open spec fn join_in(style: PathStyle, base: Seq<char>, p: Seq<char>) -> Seq<char> {
    match style {
        PathStyle::Unix => join(base, p),
        PathStyle::Windows => join_w(base, p),
    }
}

/// Whether the components of `base` are the first components of `p` in the given style
/// (`Path::starts_with`); on Windows two prefixes are compared by what they name
/// ([`same_component_w`]).
pub open spec fn starts_with_in(style: PathStyle, p: Seq<char>, base: Seq<char>) -> bool {
    let a = components_in(style, p);
    let b = components_in(style, base);
    &&& b.len() <= a.len()
    &&& match style {
        PathStyle::Unix => a.subrange(0, b.len() as int) == b,
        PathStyle::Windows => forall|i: int| 0 <= i < b.len() ==> same_component_w(a[i], b[i], i),
    }
}

/// The main separator of the style (`std::path::MAIN_SEPARATOR`).
pub open spec fn main_separator(style: PathStyle) -> char {
    match style {
        PathStyle::Unix => '/',
        PathStyle::Windows => '\\',
    }
}

/// Whether `p` is absolute, that is, starts at the root.
pub open spec fn is_absolute(p: Seq<char>) -> bool {
    p.len() > 0 && p[0] == '/'
}

/// Whether a relative `p` starts with a `.` component (`.` alone, or `./...`).
pub open spec fn starts_with_cur_dir(p: Seq<char>) -> bool {
    !is_absolute(p) && p.len() > 0 && p[0] == '.' && (p.len() == 1 || p[1] == '/')
}

/// The pieces of `ps` that name components: neither empty nor `.`.
pub open spec fn named_pieces(ps: Seq<Seq<char>>) -> Seq<Seq<char>>
    decreases ps.len(),
{
    if ps.len() == 0 {
        Seq::empty()
    } else {
        let rest = named_pieces(ps.drop_last());
        if ps.last().len() == 0 || ps.last() == seq!['.'] {
            rest
        } else {
            rest.push(ps.last())
        }
    }
}

/// The components of the path `p`.
pub open spec fn components(p: Seq<char>) -> Seq<Seq<char>> {
    let head: Seq<Seq<char>> = if is_absolute(p) {
        seq![seq!['/']]
    } else if starts_with_cur_dir(p) {
        seq![seq!['.']]
    } else {
        Seq::empty()
    };
    head + named_pieces(split(p, '/'))
}

/// Whether the components of `base` are the first components of `p` (`Path::starts_with`).
pub open spec fn path_starts_with(p: Seq<char>, base: Seq<char>) -> bool {
    let a = components(p);
    let b = components(base);
    b.len() <= a.len() && a.subrange(0, b.len() as int) == b
}

/// `base` extended by `p` (`PathBuf::push`): an absolute `p` replaces `base`; otherwise a `/` is
/// put between them unless `base` is empty or already ends with `/`.
pub open spec fn join(base: Seq<char>, p: Seq<char>) -> Seq<char> {
    if is_absolute(p) {
        p
    } else if base.len() > 0 && base.last() != '/' {
        base + seq!['/'] + p
    } else {
        base + p
    }
}

/// The components of the Unix path `p`.
fn unix_components_text(p: &str) -> (r: Vec<String>)
    ensures
        views(r@) == components(p@),
{
    let chars = chars_of(p);
    let pieces = split_text(p, '/');
    let mut out: Vec<String> = Vec::new();
    proof {
        reveal_strlit("/");
        reveal_strlit(".");
    }
    if chars.len() > 0 && chars[0] == '/' {
        let root = String::from_str("/");
        assert(root@ =~= seq!['/']);
        out.push(root);
    } else if chars.len() > 0 && chars[0] == '.' && (chars.len() == 1 || chars[1] == '/') {
        let cur = String::from_str(".");
        assert(cur@ =~= seq!['.']);
        out.push(cur);
    }
    let ghost head = views(out@);
    assert(head =~= (if is_absolute(p@) {
        seq![seq!['/']]
    } else if starts_with_cur_dir(p@) {
        seq![seq!['.']]
    } else {
        Seq::<Seq<char>>::empty()
    }));
    let mut i: usize = 0;
    while i < pieces.len()
        invariant
            i <= pieces.len(),
            views(pieces@) == split(p@, '/'),
            views(out@) == head + named_pieces(views(pieces@).subrange(0, i as int)),
        decreases pieces.len() - i,
    {
        let ghost before = views(pieces@).subrange(0, i as int);
        let ghost after = views(pieces@).subrange(0, i + 1);
        assert(after.drop_last() =~= before);
        assert(after.last() == pieces@[i as int]@);
        let piece = &pieces[i];
        let dot = String::from_str(".");
        proof {
            reveal_strlit(".");
        }
        assert(dot@ =~= seq!['.']);
        let is_dot = *piece == dot;
        if piece.as_str().unicode_len() != 0 && !is_dot {
            let cp = piece.clone();
            let ghost prev = out@;
            out.push(cp);
            proof {
                assert(views(out@) =~= views(prev).push(cp@));
                assert(named_pieces(after) == named_pieces(before).push(after.last()));
            }
        } else {
            assert(after.last().len() == 0 || after.last() == seq!['.']);
            assert(named_pieces(after) == named_pieces(before));
        }
        i = i + 1;
    }
    assert(views(pieces@).subrange(0, pieces.len() as int) =~= views(pieces@));
    assert(views(out@) =~= components(p@));
    out
}

/// Whether the text `p` starts with `/`.
fn unix_is_absolute_text(p: &str) -> (b: bool)
    ensures
        b == is_absolute(p@),
{
    let chars = chars_of(p);
    chars.len() > 0 && chars[0] == '/'
}

/// The Unix path `base` extended by `p`.
fn unix_join_text(base: &str, p: &str) -> (r: String)
    ensures
        r@ == join(base@, p@),
{
    if unix_is_absolute_text(p) {
        String::from_str(p)
    } else {
        let b = chars_of(base);
        if b.len() > 0 && b[b.len() - 1] != '/' {
            proof {
                reveal_strlit("/");
            }
            String::from_str(base).concat("/").concat(p)
        } else {
            String::from_str(base).concat(p)
        }
    }
}

/// The components of `p` in the given style.
pub fn path_components(p: &str, style: PathStyle) -> (r: Vec<String>)
    ensures
        views(r@) == components_in(style, p@),
{
    match style {
        PathStyle::Unix => unix_components_text(p),
        PathStyle::Windows => components_w_text(p),
    }
}

/// Whether `p` is absolute in the given style.
pub fn is_absolute_text(p: &str, style: PathStyle) -> (b: bool)
    ensures
        b == is_absolute_in(style, p@),
{
    match style {
        PathStyle::Unix => unix_is_absolute_text(p),
        PathStyle::Windows => is_absolute_w_text(p),
    }
}

/// `base` extended by `p` in the given style.
pub fn join_text(base: &str, p: &str, style: PathStyle) -> (r: String)
    ensures
        r@ == join_in(style, base@, p@),
{
    match style {
        PathStyle::Unix => unix_join_text(base, p),
        PathStyle::Windows => join_w_text(base, p),
    }
}

/// Whether the components of `base` are the first components of `p` in the given style.
pub fn path_starts_with_text(p: &str, base: &str, style: PathStyle) -> (r: bool)
    ensures
        r == starts_with_in(style, p@, base@),
{
    let a = path_components(p, style);
    let b = path_components(base, style);
    if b.len() > a.len() {
        return false;
    }
    let mut i: usize = 0;
    while i < b.len()
        invariant
            i <= b.len() <= a.len(),
            views(a@) == components_in(style, p@),
            views(b@) == components_in(style, base@),
            forall|k: int|
                0 <= k < i ==> match style {
                    PathStyle::Unix => views(a@)[k] == views(b@)[k],
                    PathStyle::Windows => same_component_w(views(a@)[k], views(b@)[k], k),
                },
        decreases b.len() - i,
    {
        let same = match style {
            PathStyle::Unix => a[i] == b[i],
            PathStyle::Windows => same_component_w_text(a[i].as_str(), b[i].as_str(), i),
        };
        if !same {
            assert(views(a@)[i as int] == a@[i as int]@);
            assert(views(b@)[i as int] == b@[i as int]@);
            if style == PathStyle::Unix {
                assert(views(a@).subrange(0, b.len() as int)[i as int] != views(b@)[i as int]);
            }
            return false;
        }
        i = i + 1;
    }
    if style == PathStyle::Unix {
        assert(views(a@).subrange(0, b.len() as int) =~= views(b@));
    }
    true
}

/// Every path starts with itself.
pub proof fn lemma_path_starts_with_itself(style: PathStyle, p: Seq<char>)
    ensures
        starts_with_in(style, p, p),
{
    assert(components_in(style, p).subrange(0, components_in(style, p).len() as int)
        =~= components_in(style, p));
}


/// Splitting stops at a separator: what lies before it splits on its own.
pub(crate) proof fn lemma_split_at_separator(s: Seq<char>, sep: char, start: int, i: int, k: int)
    requires
        0 <= start <= i <= k < s.len(),
        s[k] == sep,
    ensures
        split_from(s, sep, start, i) == split_from(s.subrange(0, k), sep, start, i) + split_from(
            s,
            sep,
            k + 1,
            k + 1,
        ),
    decreases k - i,
{
    let x = s.subrange(0, k);
    if i == k {
        assert(x.subrange(start, x.len() as int) =~= s.subrange(start, k));
    } else {
        assert(x[i] == s[i]);
        lemma_split_at_separator(s, sep, if s[i] == sep {
            i + 1
        } else {
            start
        }, i + 1, k);
        if s[i] == sep {
            assert(x.subrange(start, i) =~= s.subrange(start, i));
            assert(seq![s.subrange(start, i)] + (split_from(x, sep, i + 1, i + 1) + split_from(
                s,
                sep,
                k + 1,
                k + 1,
            )) =~= seq![x.subrange(start, i)] + split_from(x, sep, i + 1, i + 1) + split_from(
                s,
                sep,
                k + 1,
                k + 1,
            ));
        }
    }
}

/// Splitting the end of a text is splitting that end on its own.
pub(crate) proof fn lemma_split_shift(s: Seq<char>, sep: char, k: int, start: int, i: int)
    requires
        0 <= k <= start <= i <= s.len(),
    ensures
        split_from(s, sep, start, i) == split_from(s.subrange(k, s.len() as int), sep, start - k, i
            - k),
    decreases s.len() - i,
{
    let t = s.subrange(k, s.len() as int);
    if i >= s.len() {
        assert(t.subrange(start - k, t.len() as int) =~= s.subrange(start, s.len() as int));
    } else {
        assert(t[i - k] == s[i]);
        if s[i] == sep {
            lemma_split_shift(s, sep, k, i + 1, i + 1);
            assert(t.subrange(start - k, i - k) =~= s.subrange(start, i));
        } else {
            lemma_split_shift(s, sep, k, start, i + 1);
        }
    }
}

/// Splitting `x`, a separator, then `y` splits `x` and `y` apart.
pub(crate) proof fn lemma_split_concat(x: Seq<char>, sep: char, y: Seq<char>)
    ensures
        split(x + seq![sep] + y, sep) == split(x, sep) + split(y, sep),
{
    let s = x + seq![sep] + y;
    let n = x.len() as int;
    lemma_split_at_separator(s, sep, 0, 0, n);
    assert(s.subrange(0, n) =~= x);
    lemma_split_shift(s, sep, n + 1, n + 1, n + 1);
    assert(s.subrange(n + 1, s.len() as int) =~= y);
}

/// Keeping the named pieces of two lists of pieces keeps those of each.
pub(crate) proof fn lemma_named_pieces_concat(a: Seq<Seq<char>>, b: Seq<Seq<char>>)
    ensures
        named_pieces(a + b) == named_pieces(a) + named_pieces(b),
    decreases b.len(),
{
    if b.len() == 0 {
        assert(a + b =~= a);
        assert(named_pieces(a) + named_pieces(b) =~= named_pieces(a));
    } else {
        assert((a + b).drop_last() =~= a + b.drop_last());
        lemma_named_pieces_concat(a, b.drop_last());
        if b.last().len() == 0 || b.last() == seq!['.'] {
        } else {
            assert(named_pieces(a) + named_pieces(b.drop_last()).push(b.last()) =~= (named_pieces(
                a,
            ) + named_pieces(b.drop_last())).push(b.last()));
        }
    }
}

pub(crate) proof fn lemma_named_pieces_of_empty_piece()
    ensures
        named_pieces(seq![Seq::<char>::empty()]) == Seq::<Seq<char>>::empty(),
{
    let one = seq![Seq::<char>::empty()];
    assert(one.drop_last() =~= Seq::<Seq<char>>::empty());
    assert(one.last() == Seq::<char>::empty());
    assert(named_pieces(one.drop_last()) == Seq::<Seq<char>>::empty());
}

/// A relative Unix path joined onto a base lies within the base.
proof fn lemma_unix_join_stays_within(base: Seq<char>, p: Seq<char>)
    requires
        !is_absolute(p),
    ensures
        path_starts_with(join(base, p), base),
{
    let j = join(base, p);
    if base.len() == 0 {
        assert(j =~= p);
        assert(split(base, '/') =~= seq![Seq::<char>::empty()]) by {
            assert(base.subrange(0, 0) =~= Seq::<char>::empty());
        }
        lemma_named_pieces_of_empty_piece();
        assert(components(base) =~= Seq::<Seq<char>>::empty());
        assert(components(j).subrange(0, 0) =~= components(base));
    } else {
        // The text before the last separator that the join puts or finds after the base.
        let x = if base.last() != '/' {
            base
        } else {
            base.drop_last()
        };
        assert(j =~= x + seq!['/'] + p);
        lemma_split_concat(x, '/', p);
        lemma_named_pieces_concat(split(x, '/'), split(p, '/'));
        let hb: Seq<Seq<char>> = if is_absolute(base) {
            seq![seq!['/']]
        } else if starts_with_cur_dir(base) {
            seq![seq!['.']]
        } else {
            Seq::empty()
        };
        assert(j[0] == base[0]);
        if base.len() >= 2 {
            assert(j[1] == base[1]);
        }
        if base.last() != '/' {
            assert(components(base) =~= hb + named_pieces(split(x, '/')));
        } else {
            assert(base =~= x + seq!['/'] + Seq::<char>::empty());
            lemma_split_concat(x, '/', Seq::<char>::empty());
            let e = Seq::<char>::empty();
            assert(split(e, '/') =~= seq![e]) by {
                assert(e.subrange(0, 0) =~= e);
            }
            lemma_named_pieces_concat(split(x, '/'), split(e, '/'));
            lemma_named_pieces_of_empty_piece();
            assert(components(base) =~= hb + named_pieces(split(x, '/')));
        }
        assert(components(j) =~= hb + named_pieces(split(x, '/')) + named_pieces(split(p, '/')));
        assert(components(j).subrange(0, components(base).len() as int) =~= components(base));
    }
}


/// Whether joining `p` onto `base` keeps every component of `base`: on Unix when `p` is not
/// absolute; on Windows when `p` has neither prefix nor root and `base` is not one that a join
/// may leave ([`join_may_leave`]).
pub open spec fn join_keeps_base(style: PathStyle, base: Seq<char>, p: Seq<char>) -> bool {
    match style {
        PathStyle::Unix => !is_absolute(p),
        PathStyle::Windows => prefix_len(p) == 0 && !has_root_w(p) && !join_may_leave(base),
    }
}

/// A path joined onto a base that keeps the base lies within the base.
pub proof fn lemma_join_stays_within(style: PathStyle, base: Seq<char>, p: Seq<char>)
    requires
        join_keeps_base(style, base, p),
    ensures
        starts_with_in(style, join_in(style, base, p), base),
{
    match style {
        PathStyle::Unix => lemma_unix_join_stays_within(base, p),
        PathStyle::Windows => lemma_join_w_stays_within(base, p),
    }
}

} // verus!
