//! Slash-separated paths in text.
//!
//! A path is read as a sequence of names, with or without a root before them.
//! Repeated slashes, a trailing slash, and every `.` but one that the path begins
//! with carry no name.

use vstd::prelude::*;
use vstd::string::*;

use crate::text::{
    chars_of, concat, concat3, first_at, first_at_is, first_at_is_first, opt_slice, parts,
    same_text, slices, split, split_then_join,
};

verus! {

/// The path begins at the root.
pub open spec fn rooted(s: Seq<char>) -> bool {
    s.len() > 0 && s[0] == '/'
}

/// The path is relative and begins with the current directory.
pub open spec fn leads_with_dot(s: Seq<char>) -> bool {
    s.len() > 0 && s[0] == '.' && (s.len() == 1 || s[1] == '/')
}

/// The text between two slashes names something: it is not empty, and it is `.`
/// only where the path begins with it.
pub open spec fn is_name(piece: Seq<char>, position: int) -> bool {
    piece.len() > 0 && (piece != seq!['.'] || position == 0)
}

/// Those of the pieces that name something.
pub open spec fn names_among(pieces: Seq<Seq<char>>) -> Seq<Seq<char>>
    decreases pieces.len(),
{
    if pieces.len() == 0 {
        seq![]
    } else {
        let head = names_among(pieces.drop_last());
        if is_name(pieces.last(), pieces.len() - 1) {
            head.push(pieces.last())
        } else {
            head
        }
    }
}

/// The names that a path consists of.
pub open spec fn names(s: Seq<char>) -> Seq<Seq<char>> {
    names_among(parts(s, '/'))
}

/// Two paths that denote the same place: both rooted or both not, with the same names.
pub open spec fn same_place(a: Seq<char>, b: Seq<char>) -> bool {
    rooted(a) == rooted(b) && names(a) == names(b)
}

/// The length of what stands before the names that can be taken off: the root, or
/// the leading `.`.
pub open spec fn anchor(s: Seq<char>) -> int {
    if rooted(s) || leads_with_dot(s) {
        1
    } else {
        0
    }
}

/// The position of the last slash at or after position `from`, or `from - 1` where
/// there is none.
pub open spec fn last_slash(s: Seq<char>, from: int) -> int
    decreases s.len(),
{
    if s.len() <= from || s.len() == 0 {
        from - 1
    } else if s.last() == '/' {
        s.len() - 1
    } else {
        last_slash(s.drop_last(), from)
    }
}

proof fn last_slash_is_last(s: Seq<char>, from: int)
    requires
        0 <= from <= s.len(),
    ensures
        from - 1 <= last_slash(s, from) < s.len(),
        last_slash(s, from) >= from ==> s[last_slash(s, from)] == '/',
        forall|j: int| last_slash(s, from) < j < s.len() ==> s[j] != '/',
    decreases s.len(),
{
    if s.len() > from && s.last() != '/' {
        last_slash_is_last(s.drop_last(), from);
        assert forall|j: int| last_slash(s, from) < j < s.len() implies s[j] != '/' by {
            if j < s.len() - 1 {
                assert(s.drop_last()[j] == s[j]);
            }
        }
    }
}

/// The last piece of a path that is longer than its anchor.
pub open spec fn last_piece(s: Seq<char>) -> Seq<char> {
    s.skip(last_slash(s, anchor(s)) + 1)
}

/// A path that is longer than its anchor, without its last piece and the slash
/// before it.
pub open spec fn without_last_piece(s: Seq<char>) -> Seq<char> {
    let k = last_slash(s, anchor(s));
    if k >= anchor(s) {
        s.take(k)
    } else {
        s.take(anchor(s))
    }
}

/// A path without the pieces at its end that carry no name.
pub open spec fn settled(s: Seq<char>) -> Seq<char>
    decreases s.len(),
    via settled_shrinks
{
    if s.len() <= anchor(s) {
        s
    } else if last_piece(s).len() == 0 || last_piece(s) == seq!['.'] {
        settled(without_last_piece(s))
    } else {
        s
    }
}

#[via_fn]
proof fn settled_shrinks(s: Seq<char>) {
    if s.len() > anchor(s) {
        last_slash_is_last(s, anchor(s));
    }
}

/// The path without its last name, if it has a name.
pub open spec fn parent_of(s: Seq<char>) -> Option<Seq<char>> {
    let t = settled(s);
    if t.len() > anchor(t) {
        Some(settled(without_last_piece(t)))
    } else if leads_with_dot(t) {
        Some(seq![])
    } else {
        None
    }
}

/// The last name of the path, if it has one that is neither `.` nor `..`.
pub open spec fn file_name_of(s: Seq<char>) -> Option<Seq<char>> {
    let t = settled(s);
    if t.len() > anchor(t) && last_piece(t) != seq!['.', '.'] {
        Some(last_piece(t))
    } else {
        None
    }
}

/// `p` taken from the directory `base`: `p` itself where it is rooted.
pub open spec fn joined_path(base: Seq<char>, p: Seq<char>) -> Seq<char> {
    if rooted(p) {
        p
    } else if base.len() == 0 || base.last() == '/' {
        base + p
    } else {
        base.push('/') + p
    }
}

// ---------------------------------------------------------------------------
// Laws
// ---------------------------------------------------------------------------

/// A text that a slash ends with a last piece splits into the parts before that
/// slash and the piece.
proof fn parts_at_last_slash(s: Seq<char>, k: int)
    requires
        0 <= k < s.len(),
        s[k] == '/',
        forall|j: int| k < j < s.len() ==> s[j] != '/',
    ensures
        parts(s, '/') == parts(s.take(k), '/').push(s.skip(k + 1)),
    decreases s.len(),
{
    first_at_is_first(s, '/');
    let i = first_at(s, '/');
    let rest = s.skip(i + 1);
    if i == k {
        first_at_is(rest, '/', rest.len() as int);
        first_at_is(s.take(k), '/', k);
        assert(parts(rest, '/') =~= seq![rest]);
        assert(parts(s, '/') =~= seq![s.take(k)] + seq![rest]);
        assert(parts(s.take(k), '/') =~= seq![s.take(k)]);
    } else {
        let m = k - i - 1;
        assert(rest[m] == s[k]);
        assert forall|j: int| m < j < rest.len() implies rest[j] != '/' by {
            assert(rest[j] == s[j + i + 1]);
        }
        parts_at_last_slash(rest, m);
        first_at_is(s.take(k), '/', i);
        assert(s.take(k).take(i) =~= s.take(i));
        assert(s.take(k).skip(i + 1) =~= rest.take(m));
        assert(rest.skip(m + 1) =~= s.skip(k + 1));
        assert(parts(s, '/') =~= seq![s.take(i)] + parts(rest, '/'));
        assert(parts(s, '/') =~= parts(s.take(k), '/').push(s.skip(k + 1)));
    }
}

proof fn parts_without_slash(s: Seq<char>)
    requires
        forall|j: int| 0 <= j < s.len() ==> s[j] != '/',
    ensures
        parts(s, '/') == seq![s],
{
    first_at_is(s, '/', s.len() as int);
}

proof fn names_of_parts(s: Seq<char>, before: Seq<char>, piece: Seq<char>)
    requires
        parts(s, '/') == parts(before, '/').push(piece),
    ensures
        names(s) == if is_name(piece, parts(before, '/').len() as int) {
            names(before).push(piece)
        } else {
            names(before)
        },
{
    assert(parts(s, '/').drop_last() =~= parts(before, '/'));
    assert(parts(s, '/').last() == piece);
}

proof fn parts_not_empty(s: Seq<char>)
    ensures
        parts(s, '/').len() >= 1,
{
}

proof fn names_of_short(s: Seq<char>)
    requires
        s.len() <= anchor(s),
    ensures
        names(s) == (if leads_with_dot(s) {
            seq![s]
        } else {
            Seq::<Seq<char>>::empty()
        }),
{
    let e = Seq::<char>::empty();
    parts_without_slash(e);
    assert(names_among(Seq::<Seq<char>>::empty()) =~= seq![]);
    assert(parts(e, '/').drop_last() =~= seq![]);
    assert(names(e) =~= seq![]);
    if s.len() == 0 {
        assert(s =~= e);
    } else if rooted(s) {
        parts_at_last_slash(s, 0);
        assert(s.take(0) =~= e);
        assert(s.skip(1) =~= e);
        names_of_parts(s, e, e);
    } else {
        parts_without_slash(s);
        assert(parts(s, '/').drop_last() =~= seq![]);
        assert(names(s) =~= seq![s]);
    }
}

/// Taking the last piece off a path takes its name away, if it has one.
proof fn names_without_last_piece(s: Seq<char>)
    requires
        s.len() > anchor(s),
    ensures
        anchor(without_last_piece(s)) == anchor(s),
        rooted(without_last_piece(s)) == rooted(s),
        leads_with_dot(without_last_piece(s)) == leads_with_dot(s),
        without_last_piece(s).len() < s.len(),
        names(s) == if last_piece(s).len() > 0 && last_piece(s) != seq!['.'] {
            names(without_last_piece(s)).push(last_piece(s))
        } else {
            names(without_last_piece(s))
        },
{
    let a = anchor(s);
    let k = last_slash(s, a);
    let t = without_last_piece(s);
    let piece = last_piece(s);
    last_slash_is_last(s, a);
    parts_not_empty(t);
    if k >= a {
        parts_at_last_slash(s, k);
        names_of_parts(s, t, piece);
    } else if a == 1 && rooted(s) {
        let e = Seq::<char>::empty();
        parts_at_last_slash(s, 0);
        assert(s.take(0) =~= e);
        parts_not_empty(e);
        names_of_parts(s, e, piece);
        names_of_short(e);
        names_of_short(t);
    } else {
        assert(a == 0);
        assert(piece =~= s);
        parts_without_slash(s);
        assert(t =~= Seq::<char>::empty());
        names_of_short(t);
        assert(parts(s, '/').drop_last() =~= Seq::<Seq<char>>::empty());
        assert(names_among(Seq::<Seq<char>>::empty()) =~= seq![]);
        assert(names(s) =~= if is_name(s, 0) {
            seq![s]
        } else {
            Seq::<Seq<char>>::empty()
        });
        if piece == seq!['.'] {
            assert(leads_with_dot(s));
        }
        assert(seq![s] =~= names(t).push(s));
    }
}

/// Settling a path keeps its names.
pub proof fn settled_keeps_names(s: Seq<char>)
    ensures
        names(settled(s)) == names(s),
        rooted(settled(s)) == rooted(s),
        leads_with_dot(settled(s)) == leads_with_dot(s),
        settled(s).len() > anchor(settled(s)) ==> last_piece(settled(s)).len() > 0 && last_piece(
            settled(s),
        ) != seq!['.'],
    decreases s.len(),
{
    if s.len() > anchor(s) {
        names_without_last_piece(s);
        if last_piece(s).len() == 0 || last_piece(s) == seq!['.'] {
            settled_keeps_names(without_last_piece(s));
        }
    }
}

/// A path has a parent exactly where it has a name, and the parent has all its
/// names but the last one.
pub proof fn parent_drops_last_name(s: Seq<char>)
    ensures
        parent_of(s) is Some <==> names(s).len() > 0,
        parent_of(s) matches Some(p) ==> names(p) == names(s).drop_last() && rooted(p) == rooted(s),
{
    let t = settled(s);
    settled_keeps_names(s);
    if t.len() > anchor(t) {
        names_without_last_piece(t);
        settled_keeps_names(without_last_piece(t));
        assert(names(t).drop_last() =~= names(without_last_piece(t)));
    } else {
        names_of_short(t);
        names_of_short(Seq::<char>::empty());
        if leads_with_dot(t) {
            assert(names(t).drop_last() =~= seq![]);
            assert(!rooted(t));
        }
    }
}

/// A path that leads on from another by one name has the names of that path and the new
/// one. The root and the empty path have none.
pub proof fn path_leads_on(base: Seq<char>, name: Seq<char>)
    requires
        name.len() > 0,
        !name.contains('/'),
        name != seq!['.'],
    ensures
        names(base + seq!['/'] + name) == names(base).push(name),
        base.len() > 0 ==> rooted(base + seq!['/'] + name) == rooted(base),
        names(seq!['/']).len() == 0,
        names(seq![]).len() == 0,
        name != seq!['.', '.'] ==> file_name_of(base + seq!['/'] + name) == Some(name),
{
    let s = base + seq!['/'] + name;
    let k = base.len() as int;
    assert(s[k] == '/');
    assert forall|j: int| k < j < s.len() implies s[j] != '/' by {
        assert(s[j] == name[j - k - 1]);
        assert(name.contains(name[j - k - 1]));
    }
    parts_at_last_slash(s, k);
    assert(s.take(k) =~= base);
    assert(s.skip(k + 1) =~= name);
    let pieces = parts(base, '/');
    split_then_join(base, '/');
    assert(pieces.push(name).drop_last() =~= pieces);
    names_of_short(seq!['/']);
    names_of_short(seq![]);
    file_name_is_last_name(s);
}

/// A rooted path stays what it is wherever it is taken from; another one is taken from the
/// directory, behind a slash.
pub proof fn joining_leads_on(base: Seq<char>, p: Seq<char>)
    ensures
        p.len() > 0 && p[0] == '/' ==> joined_path(base, p) == p,
        !(p.len() > 0 && p[0] == '/') && base.len() > 0 && base.last() != '/' ==> joined_path(
            base,
            p,
        ) == base + seq!['/'] + p && joined_path(base.push('/'), p) == base + seq!['/'] + p,
{
    assert(base.push('/') =~= base + seq!['/']);
}

/// A path's file name is its last name, unless that is `.` or `..`.
pub proof fn file_name_is_last_name(s: Seq<char>)
    ensures
        file_name_of(s) == if names(s).len() > 0 && names(s).last() != seq!['.'] && names(s).last()
            != seq!['.', '.'] {
            Some(names(s).last())
        } else {
            None
        },
{
    let t = settled(s);
    settled_keeps_names(s);
    if t.len() > anchor(t) {
        names_without_last_piece(t);
    } else {
        names_of_short(t);
        if leads_with_dot(t) {
            assert(t =~= seq!['.']);
        }
    }
}

// ---------------------------------------------------------------------------
// Operations
// ---------------------------------------------------------------------------

fn anchor_len(cs: &Vec<char>, n: usize) -> (r: usize)
    requires
        n <= cs@.len(),
    ensures
        r == anchor(cs@.take(n as int)),
{
    if n > 0 && (cs[0] == '/' || (cs[0] == '.' && (n == 1 || cs[1] == '/'))) {
        1
    } else {
        0
    }
}

/// One past the last slash among the first `n` characters, but not before the anchor.
fn piece_start(cs: &Vec<char>, n: usize, a: usize) -> (r: usize)
    requires
        a <= n <= cs@.len(),
    ensures
        r == last_slash(cs@.take(n as int), a as int) + 1,
        a <= r <= n,
{
    let mut m: usize = n;
    while m > a && cs[m - 1] != '/'
        invariant
            a <= m <= n <= cs@.len(),
            last_slash(cs@.take(n as int), a as int) == last_slash(cs@.take(m as int), a as int),
        decreases m,
    {
        assert(cs@.take(m as int).last() == cs@[m - 1]);
        assert(cs@.take(m as int).drop_last() =~= cs@.take(m - 1));
        m = m - 1;
    }
    proof {
        if m > a {
            assert(cs@.take(m as int).last() == cs@[m - 1]);
        }
    }
    m
}

/// The length that remains of the first `n` characters when the last piece is off.
fn cut_last_piece(cs: &Vec<char>, n: usize) -> (r: usize)
    requires
        n <= cs@.len(),
        n > anchor(cs@.take(n as int)),
    ensures
        r < n,
        cs@.take(r as int) == without_last_piece(cs@.take(n as int)),
{
    let a: usize = anchor_len(cs, n);
    let start: usize = piece_start(cs, n, a);
    let ghost t = cs@.take(n as int);
    proof {
        last_slash_is_last(t, a as int);
    }
    let r: usize = if start > a {
        start - 1
    } else {
        a
    };
    assert(cs@.take(r as int) =~= t.take(r as int));
    r
}

/// The length of the settled form of the first `n` characters.
fn settled_len(cs: &Vec<char>, n: usize) -> (r: usize)
    requires
        n <= cs@.len(),
    ensures
        r <= n,
        cs@.take(r as int) == settled(cs@.take(n as int)),
    decreases n,
{
    let a: usize = anchor_len(cs, n);
    if n <= a {
        return n;
    }
    let start: usize = piece_start(cs, n, a);
    let ghost t = cs@.take(n as int);
    assert(last_piece(t) == t.skip(start as int));
    let idle = start == n || (start + 1 == n && cs[start] == '.');
    proof {
        if start + 1 == n && cs@[start as int] == '.' {
            assert(last_piece(t) =~= seq!['.']);
        } else if last_piece(t) == seq!['.'] {
            assert(last_piece(t)[0] == cs@[start as int]);
        }
    }
    if idle {
        let m: usize = cut_last_piece(cs, n);
        settled_len(cs, m)
    } else {
        n
    }
}

/// The path without its last name, if it has a name.
pub fn parent(s: &str) -> (r: Option<&str>)
    ensures
        opt_slice(r) == parent_of(s@),
{
    let cs = chars_of(s);
    assert(s@.take(s@.len() as int) =~= s@);
    let n: usize = settled_len(&cs, cs.len());
    let a: usize = anchor_len(&cs, n);
    if n > a {
        let m: usize = cut_last_piece(&cs, n);
        let k: usize = settled_len(&cs, m);
        let r = s.substring_char(0, k);
        assert(r@ =~= s@.take(k as int));
        Some(r)
    } else if n == 1 && cs[0] == '.' {
        let r = s.substring_char(0, 0);
        assert(r@ =~= seq![]);
        Some(r)
    } else {
        None
    }
}

/// The last name of the path, if it has one that is neither `.` nor `..`.
pub fn file_name(s: &str) -> (r: Option<&str>)
    ensures
        opt_slice(r) == file_name_of(s@),
{
    let cs = chars_of(s);
    assert(s@.take(s@.len() as int) =~= s@);
    let n: usize = settled_len(&cs, cs.len());
    let a: usize = anchor_len(&cs, n);
    if n <= a {
        return None;
    }
    let start: usize = piece_start(&cs, n, a);
    let ghost t = s@.take(n as int);
    assert(last_piece(t) =~= s@.subrange(start as int, n as int));
    if n - start == 2 && cs[start] == '.' && cs[start + 1] == '.' {
        assert(last_piece(t) =~= seq!['.', '.']);
        return None;
    }
    proof {
        if last_piece(t) == seq!['.', '.'] {
            assert(last_piece(t)[0] == cs@[start as int]);
            assert(last_piece(t)[1] == cs@[start + 1]);
        }
    }
    Some(s.substring_char(start, n))
}

/// Whether the path begins at the root.
pub fn is_rooted(s: &str) -> (r: bool)
    ensures
        r == rooted(s@),
{
    let cs = chars_of(s);
    cs.len() > 0 && cs[0] == '/'
}

/// `p` taken from the directory `base`.
pub fn join_path(base: &str, p: &str) -> (r: String)
    ensures
        r@ == joined_path(base@, p@),
{
    if is_rooted(p) {
        return p.to_owned();
    }
    let cs = chars_of(base);
    if cs.len() == 0 || cs[cs.len() - 1] == '/' {
        concat(base, p)
    } else {
        proof {
            reveal_strlit("/");
            assert("/"@ =~= seq!['/']);
            assert(base@ + "/"@ =~= base@.push('/'));
        }
        concat3(base, "/", p)
    }
}

/// The names that a path consists of.
pub fn path_names(s: &str) -> (r: Vec<&str>)
    ensures
        slices(r@) == names(s@),
{
    let pieces = split(s, '/');
    let ghost ps = parts(s@, '/');
    let mut out: Vec<&str> = Vec::new();
    let mut k: usize = 0;
    assert(ps.take(0) =~= seq![]);
    assert(slices(out@) =~= names_among(ps.take(0)));
    while k < pieces.len()
        invariant
            k <= pieces.len(),
            ps == slices(pieces@),
            slices(out@) == names_among(ps.take(k as int)),
        decreases pieces.len() - k,
    {
        let piece = pieces[k];
        proof {
            reveal_strlit(".");
            assert("."@ =~= seq!['.']);
            assert(ps.take(k + 1).drop_last() =~= ps.take(k as int));
            assert(ps.take(k + 1).last() == piece@);
            assert(slices(out@.push(piece)) =~= slices(out@).push(piece@));
        }
        if !piece.is_empty() && (k == 0 || !same_text(piece, ".")) {
            out.push(piece);
        }
        k = k + 1;
    }
    assert(ps.take(ps.len() as int) =~= ps);
    out
}

/// Whether two paths denote the same place.
pub fn same_path(a: &str, b: &str) -> (r: bool)
    ensures
        r == same_place(a@, b@),
{
    if is_rooted(a) != is_rooted(b) {
        return false;
    }
    let x = path_names(a);
    let y = path_names(b);
    if x.len() != y.len() {
        assert(slices(x@).len() != slices(y@).len());
        return false;
    }
    let mut k: usize = 0;
    while k < x.len()
        invariant
            k <= x.len(),
            x.len() == y.len(),
            slices(x@) == names(a@),
            slices(y@) == names(b@),
            forall|j: int| 0 <= j < k ==> slices(x@)[j] == slices(y@)[j],
        decreases x.len() - k,
    {
        if !same_text(x[k], y[k]) {
            assert(slices(x@)[k as int] != slices(y@)[k as int]);
            return false;
        }
        k = k + 1;
    }
    assert(slices(x@) =~= slices(y@));
    true
}

/// Denoting the same place is an equivalence.
pub proof fn same_place_is_equivalence(a: Seq<char>, b: Seq<char>, c: Seq<char>)
    ensures
        same_place(a, a),
        same_place(a, b) ==> same_place(b, a),
        same_place(a, b) && same_place(b, c) ==> same_place(a, c),
{
}

} // verus!
