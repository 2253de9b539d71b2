//! Text handling over sequences of characters.
//!
//! A `&str` or a `String` is modelled by the sequence of its characters. The
//! specification functions say what each operation yields on such sequences;
//! the executable functions beside them carry the operations out.

use vstd::prelude::*;
use vstd::string::*;

verus! {

// ---------------------------------------------------------------------------
// Views
// ---------------------------------------------------------------------------

/// The texts held by a sequence of string slices.
pub open spec fn slices(v: Seq<&str>) -> Seq<Seq<char>> {
    v.map_values(|x: &str| x@)
}

/// The texts held by a sequence of strings.
pub open spec fn texts(v: Seq<String>) -> Seq<Seq<char>> {
    v.map_values(|x: String| x@)
}

/// The text held by an optional string.
pub open spec fn opt_text(o: Option<String>) -> Option<Seq<char>> {
    match o {
        Some(s) => Some(s@),
        None => None,
    }
}

/// The text held by an optional string slice.
pub open spec fn opt_slice(o: Option<&str>) -> Option<Seq<char>> {
    match o {
        Some(s) => Some(s@),
        None => None,
    }
}

/// What an operation that may fail with a message yields, as text on both sides.
pub open spec fn text_result(r: Result<String, String>) -> Result<Seq<char>, Seq<char>> {
    match r {
        Ok(s) => Ok(s@),
        Err(e) => Err(e@),
    }
}

// ---------------------------------------------------------------------------
// Characters and comparison
// ---------------------------------------------------------------------------

/// Whether `c` has the Unicode property `White_Space`.
pub open spec fn is_space(c: char) -> bool {
    let n = c as int;
    ||| 0x09 <= n <= 0x0d
    ||| n == 0x20
    ||| n == 0x85
    ||| n == 0xa0
    ||| n == 0x1680
    ||| 0x2000 <= n <= 0x200a
    ||| n == 0x2028
    ||| n == 0x2029
    ||| n == 0x202f
    ||| n == 0x205f
    ||| n == 0x3000
}

fn code_point(c: char) -> (n: u32)
    ensures
        n == c as int,
{
    c as u32
}

fn is_space_char(c: char) -> (r: bool)
    ensures
        r == is_space(c),
{
    let n: u32 = code_point(c);
    (0x09 <= n && n <= 0x0d) || n == 0x20 || n == 0x85 || n == 0xa0 || n == 0x1680 || (0x2000 <= n
        && n <= 0x200a) || n == 0x2028 || n == 0x2029 || n == 0x202f || n == 0x205f || n == 0x3000
}

/// The characters of `s`, in order.
pub fn chars_of(s: &str) -> (r: Vec<char>)
    ensures
        r@ == s@,
{
    let mut out: Vec<char> = Vec::new();
    for c in it: s.chars()
        invariant
            out@ == s@.take(it.index() as int),
            it.seq() == s@,
    {
        out.push(c);
        assert(s@.take(it.index() as int + 1) =~= s@.take(it.index() as int).push(c));
    }
    assert(s@.take(s@.len() as int) =~= s@);
    out
}

/// Whether two texts hold the same characters.
pub fn same_text(a: &str, b: &str) -> (r: bool)
    ensures
        r == (a@ == b@),
{
    a.to_owned() == b.to_owned()
}

/// `a` comes before `b` in the order of their characters' code points, or equals it.
pub open spec fn text_le(a: Seq<char>, b: Seq<char>) -> bool
    decreases a.len(),
{
    if a.len() == 0 {
        true
    } else if b.len() == 0 {
        false
    } else if a[0] as int != b[0] as int {
        (a[0] as int) < (b[0] as int)
    } else {
        text_le(a.drop_first(), b.drop_first())
    }
}

/// Any two texts can be compared.
pub proof fn text_le_total(a: Seq<char>, b: Seq<char>)
    ensures
        text_le(a, b) || text_le(b, a),
    decreases a.len(),
{
    if a.len() > 0 && b.len() > 0 && a[0] as int == b[0] as int {
        text_le_total(a.drop_first(), b.drop_first());
    }
}

/// The comparison of texts is transitive.
pub proof fn text_le_transitive(a: Seq<char>, b: Seq<char>, c: Seq<char>)
    requires
        text_le(a, b),
        text_le(b, c),
    ensures
        text_le(a, c),
    decreases a.len(),
{
    if a.len() > 0 && b.len() > 0 && c.len() > 0 && a[0] as int == b[0] as int && b[0] as int
        == c[0] as int {
        text_le_transitive(a.drop_first(), b.drop_first(), c.drop_first());
    }
}

/// Two texts that come before each other are the same text.
pub proof fn text_le_antisymmetric(a: Seq<char>, b: Seq<char>)
    requires
        text_le(a, b),
        text_le(b, a),
    ensures
        a == b,
    decreases a.len(),
{
    if a.len() > 0 && b.len() > 0 {
        text_le_antisymmetric(a.drop_first(), b.drop_first());
        let x: char = a[0];
        let y: char = b[0];
        assert(a =~= seq![x] + a.drop_first());
        assert(b =~= seq![y] + b.drop_first());
    } else {
        assert(a =~= b);
    }
}

/// Compares two texts by the code points of their characters.
pub fn text_not_after(a: &str, b: &str) -> (r: bool)
    ensures
        r == text_le(a@, b@),
{
    let x = chars_of(a);
    let y = chars_of(b);
    let mut i: usize = 0;
    assert(x@.skip(0) =~= x@);
    assert(y@.skip(0) =~= y@);
    while i < x.len() && i < y.len()
        invariant
            i <= x.len(),
            i <= y.len(),
            x@ == a@,
            y@ == b@,
            text_le(x@, y@) == text_le(x@.skip(i as int), y@.skip(i as int)),
        decreases x.len() - i,
    {
        assert(x@.skip(i as int)[0] == x@[i as int]);
        assert(y@.skip(i as int)[0] == y@[i as int]);
        let p: u32 = code_point(x[i]);
        let q: u32 = code_point(y[i]);
        if p != q {
            return p < q;
        }
        assert(x@.skip(i as int).drop_first() =~= x@.skip(i + 1));
        assert(y@.skip(i as int).drop_first() =~= y@.skip(i + 1));
        i = i + 1;
    }
    i == x.len()
}

// ---------------------------------------------------------------------------
// Trimming
// ---------------------------------------------------------------------------

/// `s` without its leading white space.
pub open spec fn trim_front(s: Seq<char>) -> Seq<char>
    decreases s.len(),
{
    if s.len() > 0 && is_space(s[0]) {
        trim_front(s.drop_first())
    } else {
        s
    }
}

/// `s` without its trailing white space.
pub open spec fn trim_back(s: Seq<char>) -> Seq<char>
    decreases s.len(),
{
    if s.len() > 0 && is_space(s.last()) {
        trim_back(s.drop_last())
    } else {
        s
    }
}

/// `s` without leading and trailing white space.
pub open spec fn trimmed(s: Seq<char>) -> Seq<char> {
    trim_back(trim_front(s))
}

/// `s` without leading and trailing white space.
pub fn trim(s: &str) -> (r: &str)
    ensures
        r@ == trimmed(s@),
{
    let cs = chars_of(s);
    let mut i: usize = 0;
    assert(cs@.skip(0) =~= cs@);
    while i < cs.len() && is_space_char(cs[i])
        invariant
            i <= cs.len(),
            trim_front(cs@) == trim_front(cs@.skip(i as int)),
        decreases cs.len() - i,
    {
        assert(cs@.skip(i as int)[0] == cs@[i as int]);
        assert(cs@.skip(i as int).drop_first() =~= cs@.skip(i + 1));
        i = i + 1;
    }
    proof {
        if i < cs.len() {
            assert(cs@.skip(i as int)[0] == cs@[i as int]);
        }
        assert(trim_front(cs@) == cs@.skip(i as int));
    }
    let mut j: usize = cs.len();
    assert(cs@.subrange(i as int, j as int) =~= cs@.skip(i as int));
    while i < j && is_space_char(cs[j - 1])
        invariant
            i <= j <= cs.len(),
            trim_back(cs@.skip(i as int)) == trim_back(cs@.subrange(i as int, j as int)),
        decreases j,
    {
        assert(cs@.subrange(i as int, j as int).last() == cs@[j - 1]);
        assert(cs@.subrange(i as int, j as int).drop_last() =~= cs@.subrange(i as int, j - 1));
        j = j - 1;
    }
    proof {
        if i < j {
            assert(cs@.subrange(i as int, j as int).last() == cs@[j - 1]);
        }
    }
    s.substring_char(i, j)
}

/// `s` without the leading run of `c`.
pub open spec fn trim_char_front(s: Seq<char>, c: char) -> Seq<char>
    decreases s.len(),
{
    if s.len() > 0 && s[0] == c {
        trim_char_front(s.drop_first(), c)
    } else {
        s
    }
}

/// `s` without the trailing run of `c`.
pub open spec fn trim_char_back(s: Seq<char>, c: char) -> Seq<char>
    decreases s.len(),
{
    if s.len() > 0 && s.last() == c {
        trim_char_back(s.drop_last(), c)
    } else {
        s
    }
}

/// `s` without the runs of `c` at both ends.
pub fn trim_char(s: &str, c: char) -> (r: &str)
    ensures
        r@ == trim_char_back(trim_char_front(s@, c), c),
{
    let cs = chars_of(s);
    let mut i: usize = 0;
    assert(cs@.skip(0) =~= cs@);
    while i < cs.len() && cs[i] == c
        invariant
            i <= cs.len(),
            trim_char_front(cs@, c) == trim_char_front(cs@.skip(i as int), c),
        decreases cs.len() - i,
    {
        assert(cs@.skip(i as int)[0] == cs@[i as int]);
        assert(cs@.skip(i as int).drop_first() =~= cs@.skip(i + 1));
        i = i + 1;
    }
    proof {
        if i < cs.len() {
            assert(cs@.skip(i as int)[0] == cs@[i as int]);
        }
        assert(trim_char_front(cs@, c) == cs@.skip(i as int));
    }
    let mut j: usize = cs.len();
    assert(cs@.subrange(i as int, j as int) =~= cs@.skip(i as int));
    while i < j && cs[j - 1] == c
        invariant
            i <= j <= cs.len(),
            trim_char_back(cs@.skip(i as int), c) == trim_char_back(
                cs@.subrange(i as int, j as int),
                c,
            ),
        decreases j,
    {
        assert(cs@.subrange(i as int, j as int).last() == cs@[j - 1]);
        assert(cs@.subrange(i as int, j as int).drop_last() =~= cs@.subrange(i as int, j - 1));
        j = j - 1;
    }
    proof {
        if i < j {
            assert(cs@.subrange(i as int, j as int).last() == cs@[j - 1]);
        }
    }
    s.substring_char(i, j)
}

// ---------------------------------------------------------------------------
// Prefixes and suffixes
// ---------------------------------------------------------------------------

/// `s` begins with `p`.
pub open spec fn has_prefix(s: Seq<char>, p: Seq<char>) -> bool {
    p.len() <= s.len() && s.take(p.len() as int) == p
}

/// `s` ends with `p`.
pub open spec fn has_suffix(s: Seq<char>, p: Seq<char>) -> bool {
    p.len() <= s.len() && s.skip(s.len() - p.len()) == p
}

/// What follows the prefix `p` in `s`, if `s` begins with it.
pub open spec fn after_prefix(s: Seq<char>, p: Seq<char>) -> Option<Seq<char>> {
    if has_prefix(s, p) {
        Some(s.skip(p.len() as int))
    } else {
        None
    }
}

/// `s` without the suffix `p`, or `s` itself where it does not end with `p`.
pub open spec fn without_suffix(s: Seq<char>, p: Seq<char>) -> Seq<char> {
    if has_suffix(s, p) {
        s.take(s.len() - p.len())
    } else {
        s
    }
}

/// Whether the characters of `p` stand in `s` from position `at` on.
fn stands_at(s: &Vec<char>, p: &Vec<char>, at: usize) -> (r: bool)
    requires
        at <= s@.len(),
    ensures
        r == has_prefix(s@.skip(at as int), p@),
{
    if p.len() > s.len() - at {
        return false;
    }
    let mut k: usize = 0;
    while k < p.len()
        invariant
            at <= s.len(),
            p@.len() <= s@.len() - at,
            k <= p@.len(),
            forall|m: int| 0 <= m < k ==> s@[at + m] == p@[m],
        decreases p@.len() - k,
    {
        if s[at + k] != p[k] {
            assert(s@.skip(at as int).take(p@.len() as int)[k as int] == s@[at + k]);
            return false;
        }
        k = k + 1;
    }
    assert(s@.skip(at as int).take(p@.len() as int) =~= p@);
    true
}

/// Whether `s` begins with `p`.
pub fn starts_with(s: &str, p: &str) -> (r: bool)
    ensures
        r == has_prefix(s@, p@),
{
    let cs = chars_of(s);
    let ps = chars_of(p);
    assert(cs@.skip(0) =~= cs@);
    stands_at(&cs, &ps, 0)
}

/// What follows the prefix `p` in `s`, if `s` begins with it.
pub fn strip_prefix<'a>(s: &'a str, p: &str) -> (r: Option<&'a str>)
    ensures
        opt_slice(r) == after_prefix(s@, p@),
{
    let cs = chars_of(s);
    let ps = chars_of(p);
    assert(cs@.skip(0) =~= cs@);
    if stands_at(&cs, &ps, 0) {
        Some(s.substring_char(ps.len(), cs.len()))
    } else {
        None
    }
}

/// `s` without the suffix `p`, or `s` itself where it does not end with `p`.
pub fn drop_suffix<'a>(s: &'a str, p: &str) -> (r: &'a str)
    ensures
        r@ == without_suffix(s@, p@),
{
    let cs = chars_of(s);
    let ps = chars_of(p);
    if ps.len() > cs.len() {
        return s;
    }
    let at: usize = cs.len() - ps.len();
    let hit = stands_at(&cs, &ps, at);
    assert(cs@.skip(at as int).take(ps@.len() as int) =~= cs@.skip(at as int));
    if hit {
        s.substring_char(0, at)
    } else {
        s
    }
}

// ---------------------------------------------------------------------------
// Searching
// ---------------------------------------------------------------------------

/// The position of the first `c` in `s`, or the length of `s` where there is none.
pub open spec fn first_at(s: Seq<char>, c: char) -> int
    decreases s.len(),
{
    if s.len() == 0 || s[0] == c {
        0
    } else {
        1 + first_at(s.drop_first(), c)
    }
}

/// `first_at` is the first position that holds `c`.
pub proof fn first_at_is_first(s: Seq<char>, c: char)
    ensures
        0 <= first_at(s, c) <= s.len(),
        first_at(s, c) < s.len() ==> s[first_at(s, c)] == c,
        forall|j: int| 0 <= j < first_at(s, c) ==> s[j] != c,
    decreases s.len(),
{
    if s.len() > 0 && s[0] != c {
        first_at_is_first(s.drop_first(), c);
        assert forall|j: int| 0 <= j < first_at(s, c) implies s[j] != c by {
            if j > 0 {
                assert(s[j] == s.drop_first()[j - 1]);
            }
        }
    }
}

/// A position that holds `c` and that no earlier one precedes is `first_at`.
pub proof fn first_at_is(s: Seq<char>, c: char, k: int)
    requires
        0 <= k <= s.len(),
        forall|j: int| 0 <= j < k ==> s[j] != c,
        k < s.len() ==> s[k] == c,
    ensures
        first_at(s, c) == k,
{
    first_at_is_first(s, c);
}

/// The position of the first `c` in `s`, if it occurs there.
pub open spec fn find_first(s: Seq<char>, c: char) -> Option<int> {
    if first_at(s, c) < s.len() {
        Some(first_at(s, c))
    } else {
        None
    }
}

/// The position of the first `c` in `s`, if it occurs there.
pub fn find_char(s: &str, c: char) -> (r: Option<usize>)
    ensures
        match r {
            Some(i) => find_first(s@, c) == Some(i as int),
            None => find_first(s@, c) is None,
        },
{
    let cs = chars_of(s);
    let mut i: usize = 0;
    while i < cs.len()
        invariant
            i <= cs.len(),
            cs@ == s@,
            forall|j: int| 0 <= j < i ==> cs@[j] != c,
        decreases cs.len() - i,
    {
        if cs[i] == c {
            proof {
                first_at_is(s@, c, i as int);
            }
            return Some(i);
        }
        i = i + 1;
    }
    proof {
        first_at_is(s@, c, i as int);
    }
    None
}

/// The part of `s` before position `at`.
pub fn before(s: &str, at: usize) -> (r: &str)
    requires
        at <= s@.len(),
    ensures
        r@ == s@.take(at as int),
{
    s.substring_char(0, at)
}

/// The part of `s` from position `at` on.
pub fn rest_from(s: &str, at: usize) -> (r: &str)
    requires
        at <= s@.len(),
    ensures
        r@ == s@.skip(at as int),
{
    let n: usize = s.unicode_len();
    s.substring_char(at, n)
}

/// The part of `s` behind position `at`.
pub fn rest_behind(s: &str, at: usize) -> (r: &str)
    requires
        at < s@.len(),
    ensures
        r@ == s@.skip(at + 1),
{
    let n: usize = s.unicode_len();
    s.substring_char(at + 1, n)
}

/// What stands before and after the first `c` in `s`, if it occurs there.
pub open spec fn halves(s: Seq<char>, c: char) -> Option<(Seq<char>, Seq<char>)> {
    match find_first(s, c) {
        Some(i) => Some((s.take(i), s.skip(i + 1))),
        None => None,
    }
}

/// What stands before and after the first `c` in `s`, if it occurs there.
pub fn split_once(s: &str, c: char) -> (r: Option<(&str, &str)>)
    ensures
        match r {
            Some((a, b)) => halves(s@, c) == Some((a@, b@)),
            None => halves(s@, c) is None,
        },
{
    proof {
        first_at_is_first(s@, c);
    }
    match find_char(s, c) {
        Some(i) => Some((before(s, i), rest_behind(s, i))),
        None => None,
    }
}

/// The position of the first occurrence of `p` in `s`.
pub open spec fn find(s: Seq<char>, p: Seq<char>) -> Option<int>
    decreases s.len(),
{
    if has_prefix(s, p) {
        Some(0)
    } else if s.len() == 0 {
        None
    } else {
        match find(s.drop_first(), p) {
            Some(i) => Some(i + 1),
            None => None,
        }
    }
}

/// Where `find` yields a position, `p` stands there, and nowhere earlier.
pub proof fn find_is_first(s: Seq<char>, p: Seq<char>)
    ensures
        find(s, p) matches Some(i) ==> 0 <= i && i + p.len() <= s.len() && has_prefix(s.skip(i), p)
            && forall|j: int| 0 <= j < i ==> !has_prefix(#[trigger] s.skip(j), p),
        find(s, p) is None ==> forall|j: int|
            0 <= j <= s.len() ==> !has_prefix(#[trigger] s.skip(j), p),
    decreases s.len(),
{
    assert(s.skip(0) =~= s);
    if !has_prefix(s, p) && s.len() > 0 {
        let t = s.drop_first();
        find_is_first(t, p);
        assert forall|j: int| 0 < j <= s.len() implies #[trigger] s.skip(j) == t.skip(j - 1) by {
            assert(s.skip(j) =~= t.skip(j - 1));
        }
    }
}

/// The position of the first occurrence of `p` in `s`, if there is one.
pub fn find_text(s: &str, p: &str) -> (r: Option<usize>)
    ensures
        match r {
            Some(i) => find(s@, p@) == Some(i as int),
            None => find(s@, p@) is None,
        },
{
    let cs = chars_of(s);
    let ps = chars_of(p);
    let mut i: usize = 0;
    assert(cs@.skip(0) =~= cs@);
    loop
        invariant
            i <= cs.len(),
            cs@ == s@,
            ps@ == p@,
            match find(s@.skip(i as int), p@) {
                Some(k) => find(s@, p@) == Some(k + i),
                None => find(s@, p@) is None,
            },
        decreases cs.len() - i,
    {
        if stands_at(&cs, &ps, i) {
            return Some(i);
        }
        if i == cs.len() {
            return None;
        }
        assert(s@.skip(i as int).drop_first() =~= s@.skip(i + 1));
        i = i + 1;
    }
}

/// Whether `p` occurs in `s`.
pub fn contains(s: &str, p: &str) -> (r: bool)
    ensures
        r == find(s@, p@) is Some,
{
    find_text(s, p).is_some()
}

/// The second of the parts that the occurrences of a non-empty `p` divide `s` into.
pub open spec fn second_part(s: Seq<char>, p: Seq<char>) -> Option<Seq<char>> {
    match find(s, p) {
        Some(i) => {
            let rest = s.skip(i + p.len());
            match find(rest, p) {
                Some(k) => Some(rest.take(k)),
                None => Some(rest),
            }
        },
        None => None,
    }
}

/// The second of the parts that the occurrences of a non-empty `p` divide `s` into.
pub fn part_after<'a>(s: &'a str, p: &str) -> (r: Option<&'a str>)
    ensures
        opt_slice(r) == second_part(s@, p@),
{
    proof {
        find_is_first(s@, p@);
    }
    match find_text(s, p) {
        Some(i) => {
            let n: usize = s.unicode_len();
            let m: usize = p.unicode_len();
            let rest = s.substring_char(i + m, n);
            assert(rest@ == s@.skip(i + p@.len()));
            proof {
                find_is_first(rest@, p@);
            }
            match find_text(rest, p) {
                Some(k) => Some(rest.substring_char(0, k)),
                None => Some(rest),
            }
        },
        None => None,
    }
}

// ---------------------------------------------------------------------------
// Splitting and joining
// ---------------------------------------------------------------------------

/// The parts that the occurrences of `c` divide `s` into.
pub open spec fn parts(s: Seq<char>, c: char) -> Seq<Seq<char>>
    decreases s.len(),
    via parts_shrink
{
    let i = first_at(s, c);
    if i < s.len() {
        seq![s.take(i)] + parts(s.skip(i + 1), c)
    } else {
        seq![s]
    }
}

#[via_fn]
proof fn parts_shrink(s: Seq<char>, c: char) {
    first_at_is_first(s, c);
}

/// The texts of `items`, with `sep` between each two of them.
pub open spec fn joined(items: Seq<Seq<char>>, sep: Seq<char>) -> Seq<char>
    decreases items.len(),
{
    if items.len() == 0 {
        seq![]
    } else if items.len() == 1 {
        items[0]
    } else {
        items[0] + sep + joined(items.drop_first(), sep)
    }
}

/// Splitting a text and joining the parts with the separator gives the text back.
pub proof fn split_then_join(s: Seq<char>, c: char)
    ensures
        parts(s, c).len() > 0,
        joined(parts(s, c), seq![c]) == s,
    decreases s.len(),
{
    let i = first_at(s, c);
    first_at_is_first(s, c);
    if i < s.len() {
        let rest = s.skip(i + 1);
        split_then_join(rest, c);
        assert(parts(s, c).drop_first() =~= parts(rest, c));
        assert(s =~= s.take(i) + seq![c] + rest);
    }
}

/// No part of a split text holds the separator.
pub proof fn parts_hold_no_separator(s: Seq<char>, c: char, k: int)
    requires
        0 <= k < parts(s, c).len(),
    ensures
        !parts(s, c)[k].contains(c),
    decreases s.len(),
{
    let i = first_at(s, c);
    first_at_is_first(s, c);
    if i < s.len() && k > 0 {
        parts_hold_no_separator(s.skip(i + 1), c, k - 1);
    }
}

/// The parts that the occurrences of `c` divide `s` into.
pub fn split(s: &str, c: char) -> (r: Vec<&str>)
    ensures
        slices(r@) == parts(s@, c),
{
    let cs = chars_of(s);
    let n: usize = cs.len();
    let mut out: Vec<&str> = Vec::new();
    let mut start: usize = 0;
    let mut k: usize = 0;
    assert(s@.skip(0) =~= s@);
    assert(slices(out@) + parts(s@, c) =~= parts(s@, c));
    while k < n
        invariant
            n == cs.len(),
            cs@ == s@,
            start <= k <= n,
            forall|j: int| start <= j < k ==> s@[j] != c,
            slices(out@) + parts(s@.skip(start as int), c) == parts(s@, c),
        decreases n - k,
    {
        if cs[k] == c {
            let piece = s.substring_char(start, k);
            proof {
                let t = s@.skip(start as int);
                first_at_is(t, c, k - start);
                assert(t.take(k - start) =~= piece@);
                assert(t.skip(k - start + 1) =~= s@.skip(k + 1));
                assert(slices(out@.push(piece)) =~= slices(out@).push(piece@));
                assert(slices(out@).push(piece@) + parts(s@.skip(k + 1), c) =~= slices(out@)
                    + parts(t, c));
            }
            out.push(piece);
            start = k + 1;
        }
        k = k + 1;
    }
    let piece = s.substring_char(start, n);
    proof {
        let t = s@.skip(start as int);
        first_at_is(t, c, n - start);
        assert(t =~= piece@);
        assert(slices(out@.push(piece)) =~= slices(out@).push(piece@));
        assert(slices(out@) + seq![piece@] =~= slices(out@).push(piece@));
    }
    out.push(piece);
    out
}

/// The texts of `items`, with `sep` between each two of them.
pub fn join(items: &Vec<String>, sep: &str) -> (r: String)
    ensures
        r@ == joined(texts(items@), sep@),
{
    let ghost all = texts(items@);
    let mut out = String::new();
    let mut k: usize = items.len();
    assert(all.skip(k as int) =~= seq![]);
    while k > 0
        invariant
            k <= items.len(),
            all == texts(items@),
            out@ == joined(all.skip(k as int), sep@),
        decreases k,
    {
        k = k - 1;
        let mut head = items[k].clone();
        if k + 1 < items.len() {
            head.append(sep);
            head.append(out.as_str());
        }
        proof {
            let t = all.skip(k as int);
            assert(t[0] == items@[k as int]@);
            assert(t.drop_first() =~= all.skip(k + 1));
        }
        out = head;
    }
    assert(all.skip(0) =~= all);
    out
}

/// One text after the other.
pub fn concat(a: &str, b: &str) -> (r: String)
    ensures
        r@ == a@ + b@,
{
    let mut out = a.to_owned();
    out.append(b);
    out
}

/// Three texts after one another.
pub fn concat3(a: &str, b: &str, c: &str) -> (r: String)
    ensures
        r@ == a@ + b@ + c@,
{
    let mut out = a.to_owned();
    out.append(b);
    out.append(c);
    out
}

/// `n` copies of `s` after one another.
pub open spec fn repeated(s: Seq<char>, n: nat) -> Seq<char>
    decreases n,
{
    if n == 0 {
        seq![]
    } else {
        repeated(s, (n - 1) as nat) + s
    }
}

/// `n` copies of `s` after one another.
pub fn repeat(s: &str, n: usize) -> (r: String)
    ensures
        r@ == repeated(s@, n as nat),
{
    let mut out = String::new();
    let mut k: usize = 0;
    while k < n
        invariant
            k <= n,
            out@ == repeated(s@, k as nat),
        decreases n - k,
    {
        out.append(s);
        k = k + 1;
    }
    out
}

/// `s`, followed by as many spaces as it takes to make it `width` characters long.
pub open spec fn padded(s: Seq<char>, width: nat) -> Seq<char> {
    if s.len() < width {
        s + repeated(seq![' '], (width - s.len()) as nat)
    } else {
        s
    }
}

/// `s`, followed by as many spaces as it takes to make it `width` characters long.
pub fn pad(s: &str, width: usize) -> (r: String)
    ensures
        r@ == padded(s@, width as nat),
{
    let n: usize = s.unicode_len();
    let mut out = s.to_owned();
    if n < width {
        proof {
            reveal_strlit(" ");
            assert(" "@ =~= seq![' ']);
        }
        let fill = repeat(" ", width - n);
        out.append(fill.as_str());
    }
    out
}

/// `s` with every `c` replaced by `with`.
pub open spec fn replaced(s: Seq<char>, c: char, with: Seq<char>) -> Seq<char>
    decreases s.len(),
{
    if s.len() == 0 {
        seq![]
    } else {
        (if s[0] == c {
            with
        } else {
            seq![s[0]]
        }) + replaced(s.drop_first(), c, with)
    }
}

/// `s` with every `c` replaced by `with`.
pub fn replace_char(s: &str, c: char, with: &str) -> (r: String)
    ensures
        r@ == replaced(s@, c, with@),
{
    let cs = chars_of(s);
    let mut out = String::new();
    let mut k: usize = 0;
    assert(s@.skip(0) =~= s@);
    assert(out@ + replaced(s@, c, with@) =~= replaced(s@, c, with@));
    while k < cs.len()
        invariant
            cs@ == s@,
            k <= cs.len(),
            out@ + replaced(s@.skip(k as int), c, with@) == replaced(s@, c, with@),
        decreases cs.len() - k,
    {
        let ghost t = s@.skip(k as int);
        let ghost old_out = out@;
        assert(t.drop_first() =~= s@.skip(k + 1));
        if cs[k] == c {
            out.append(with);
            assert(old_out + (with@ + replaced(t.drop_first(), c, with@)) =~= (old_out + with@)
                + replaced(t.drop_first(), c, with@));
        } else {
            out.append(s.substring_char(k, k + 1));
            assert(s@.subrange(k as int, k + 1) =~= seq![t[0]]);
            assert(old_out + (seq![t[0]] + replaced(t.drop_first(), c, with@)) =~= (old_out
                + seq![t[0]]) + replaced(t.drop_first(), c, with@));
        }
        k = k + 1;
    }
    assert(s@.skip(k as int) =~= seq![]);
    out
}

// ---------------------------------------------------------------------------
// Lines
// ---------------------------------------------------------------------------

/// A line without the carriage return that ends it.
pub open spec fn without_return(line: Seq<char>) -> Seq<char> {
    if line.len() > 0 && line.last() == '\r' {
        line.drop_last()
    } else {
        line
    }
}

/// The number of lines of `s` that hold something. A line ends with a line feed
/// or with a carriage return and a line feed; the last one may end with nothing.
pub open spec fn filled_lines(s: Seq<char>) -> nat
    decreases s.len(),
    via filled_lines_shrink
{
    let i = first_at(s, '\n');
    if i < s.len() {
        (if without_return(s.take(i)).len() > 0 {
            1nat
        } else {
            0nat
        }) + filled_lines(s.skip(i + 1))
    } else if s.len() > 0 {
        1
    } else {
        0
    }
}

#[via_fn]
proof fn filled_lines_shrink(s: Seq<char>) {
    first_at_is_first(s, '\n');
}

/// Counts the lines of `s` that hold something.
pub fn count_filled_lines(s: &str) -> (r: usize)
    ensures
        r == filled_lines(s@),
{
    let cs = chars_of(s);
    let n: usize = cs.len();
    let mut count: usize = 0;
    let mut start: usize = 0;
    let mut k: usize = 0;
    assert(s@.skip(0) =~= s@);
    while k < n
        invariant
            n == cs.len(),
            cs@ == s@,
            start <= k <= n,
            count <= start,
            forall|j: int| start <= j < k ==> s@[j] != '\n',
            count + filled_lines(s@.skip(start as int)) == filled_lines(s@),
        decreases n - k,
    {
        if cs[k] == '\n' {
            proof {
                let t = s@.skip(start as int);
                first_at_is(t, '\n', k - start);
                assert(t.skip(k - start + 1) =~= s@.skip(k + 1));
                if k > start {
                    assert(t.take(k - start).last() == s@[k - 1]);
                }
            }
            let len: usize = k - start;
            if len > 1 || (len == 1 && cs[start] != '\r') {
                count = count + 1;
            }
            start = k + 1;
        }
        k = k + 1;
    }
    proof {
        first_at_is(s@.skip(start as int), '\n', n - start);
    }
    if start < n {
        count = count + 1;
    }
    count
}

// ---------------------------------------------------------------------------
// Letter case
// ---------------------------------------------------------------------------

/// What `str::to_lowercase` makes of a text.
pub uninterp spec fn lowercase(s: Seq<char>) -> Seq<char>;

/// Every character of `s` is an ASCII character.
pub open spec fn all_ascii(s: Seq<char>) -> bool {
    forall|i: int| 0 <= i < s.len() ==> (#[trigger] s[i] as int) < 128
}

/// `c` in lower case, where it is an ASCII letter, and `c` itself otherwise.
pub open spec fn ascii_lower(c: char) -> char {
    if 'A' as int <= c as int <= 'Z' as int {
        (c as int + 32) as char
    } else {
        c
    }
}

/// `str::to_lowercase` maps a text to lower case by the Unicode rules, which
/// `lowercase` stands for. On ASCII text it maps the letters `A` to `Z` to `a`
/// to `z` and keeps every other character.
pub assume_specification[ str::to_lowercase ](s: &str) -> (r: String)
    ensures
        r@ == lowercase(s@),
        all_ascii(s@) ==> r@ == s@.map_values(|c: char| ascii_lower(c)),
;

// ---------------------------------------------------------------------------
// Laws
// ---------------------------------------------------------------------------

/// Trimming takes the white space off both ends of a text, however much there is, and
/// nothing else.
pub proof fn trimming_leaves_the_middle(left: Seq<char>, s: Seq<char>, right: Seq<char>)
    requires
        forall|i: int| 0 <= i < left.len() ==> is_space(#[trigger] left[i]),
        forall|i: int| 0 <= i < right.len() ==> is_space(#[trigger] right[i]),
        s.len() > 0 ==> !is_space(s[0]) && !is_space(s.last()),
    ensures
        trimmed(left + s + right) == s,
    decreases left.len() + right.len(),
{
    let t = left + s + right;
    if left.len() > 0 {
        assert(t[0] == left[0]);
        assert(t.drop_first() =~= left.drop_first() + s + right);
        assert forall|i: int| 0 <= i < left.len() - 1 implies is_space(
            #[trigger] left.drop_first()[i],
        ) by {
            assert(is_space(left[i + 1]));
        }
        trimming_leaves_the_middle(left.drop_first(), s, right);
    } else if s.len() == 0 {
        if right.len() > 0 {
            assert(t =~= right);
            assert(t[0] == right[0]);
            assert(t.drop_first() =~= left + s + right.drop_first());
            assert forall|i: int| 0 <= i < right.len() - 1 implies is_space(
                #[trigger] right.drop_first()[i],
            ) by {
                assert(is_space(right[i + 1]));
            }
            trimming_leaves_the_middle(left, s, right.drop_first());
        } else {
            assert(t =~= s);
        }
    } else {
        assert(t =~= s + right);
        assert(t[0] == s[0]);
        if right.len() > 0 {
            assert(t.last() == right.last());
            assert(t.drop_last() =~= left + s + right.drop_last());
            assert forall|i: int| 0 <= i < right.len() - 1 implies is_space(
                #[trigger] right.drop_last()[i],
            ) by {
                assert(is_space(right[i]));
            }
            trimming_leaves_the_middle(left, s, right.drop_last());
            assert(t.drop_last()[0] == s[0]);
        } else {
            assert(t =~= s);
        }
    }
}

/// Among the ASCII characters, white space is the blank and what the codes from the tab to
/// the carriage return stand for.
pub proof fn ascii_white_space(c: char)
    requires
        (c as int) < 128,
    ensures
        is_space(c) <==> c == ' ' || '\t' as int <= c as int <= '\r' as int,
{
}

/// Of two texts that differ, the one with the smaller character at the first difference
/// comes first, and a text comes before every longer one that begins with it.
pub proof fn first_difference_decides(
    head: Seq<char>,
    x: char,
    y: char,
    a: Seq<char>,
    b: Seq<char>,
)
    requires
        x != y,
    ensures
        text_le(head + seq![x] + a, head + seq![y] + b) <==> (x as int) < (y as int),
        text_le(head, head + a),
        a.len() > 0 ==> !text_le(head + a, head),
    decreases head.len(),
{
    let s = head + seq![x] + a;
    let t = head + seq![y] + b;
    if head.len() > 0 {
        assert(s.drop_first() =~= head.drop_first() + seq![x] + a);
        assert(t.drop_first() =~= head.drop_first() + seq![y] + b);
        assert((head + a).drop_first() =~= head.drop_first() + a);
        first_difference_decides(head.drop_first(), x, y, a, b);
    } else {
        assert(s[0] == x);
        assert(t[0] == y);
        assert(head + a =~= a);
    }
}

/// A text divides at the first separator: what stands before it is the first part, and the
/// parts of the rest follow. A text without a separator is its own only part.
pub proof fn parts_of_concatenation(head: Seq<char>, c: char, rest: Seq<char>)
    requires
        !head.contains(c),
    ensures
        parts(head + seq![c] + rest, c) == seq![head] + parts(rest, c),
        parts(head, c) == seq![head],
{
    let s = head + seq![c] + rest;
    let n = head.len() as int;
    assert forall|j: int| 0 <= j < n implies s[j] != c by {
        assert(head.contains(head[j]));
    }
    assert(s[n] == c);
    first_at_is(s, c, n);
    assert(s.take(n) =~= head);
    assert(s.skip(n + 1) =~= rest);
    first_at_is_first(head, c);
    if first_at(head, c) < head.len() {
        assert(head.contains(head[first_at(head, c)]));
    }
}

/// One more text is joined on behind the separator.
pub proof fn joining_one_more(items: Seq<Seq<char>>, last: Seq<char>, sep: Seq<char>)
    ensures
        joined(items.push(last), sep) == if items.len() == 0 {
            last
        } else {
            joined(items, sep) + sep + last
        },
    decreases items.len(),
{
    let all = items.push(last);
    if items.len() > 0 {
        assert(all.drop_first() =~= items.drop_first().push(last));
        joining_one_more(items.drop_first(), last, sep);
        if items.len() == 1 {
            assert(items.drop_first().push(last) =~= seq![last]);
        } else {
            assert(joined(all, sep) =~= joined(items, sep) + sep + last);
        }
    }
}

/// What two texts are joined from around a character is what the text splits into there.
pub proof fn halves_of_concatenation(head: Seq<char>, c: char, rest: Seq<char>)
    requires
        !head.contains(c),
    ensures
        halves(head + seq![c] + rest, c) == Some((head, rest)),
        halves(head, c) is None,
{
    let s = head + seq![c] + rest;
    let n = head.len() as int;
    assert forall|j: int| 0 <= j < n implies s[j] != c by {
        assert(head.contains(head[j]));
    }
    first_at_is(s, c, n);
    assert(s.take(n) =~= head);
    assert(s.skip(n + 1) =~= rest);
    first_at_is_first(head, c);
    if first_at(head, c) < head.len() {
        assert(head.contains(head[first_at(head, c)]));
    }
}

/// A prefix comes off exactly the texts that begin with it, and leaves what follows.
pub proof fn prefix_comes_off(p: Seq<char>, s: Seq<char>)
    ensures
        after_prefix(p + s, p) == Some(s),
        after_prefix(s, p) matches Some(rest) ==> s == p + rest,
        (exists|rest: Seq<char>| s == #[trigger] (p + rest)) ==> after_prefix(s, p) is Some,
{
    assert((p + s).take(p.len() as int) =~= p);
    assert((p + s).skip(p.len() as int) =~= s);
    if let Some(rest) = after_prefix(s, p) {
        assert(s =~= p + rest);
    }
    if exists|rest: Seq<char>| s == #[trigger] (p + rest) {
        let rest = choose|rest: Seq<char>| s == #[trigger] (p + rest);
        assert(s.take(p.len() as int) =~= p);
    }
}

/// A suffix comes off the texts that end with it, once; other texts stay.
pub proof fn suffix_comes_off(s: Seq<char>, p: Seq<char>)
    ensures
        without_suffix(s + p, p) == s,
        without_suffix(s, p) == s || s == without_suffix(s, p) + p,
        !has_suffix(s, p) ==> without_suffix(s, p) == s,
        has_suffix(s + p, p),
{
    assert((s + p).skip(s.len() as int) =~= p);
    assert((s + p).take(s.len() as int) =~= s);
    if has_suffix(s, p) {
        assert(s =~= s.take(s.len() - p.len()) + p);
    }
}

proof fn repeated_one(c: char, n: nat)
    ensures
        repeated(seq![c], n).len() == n,
        forall|i: int| 0 <= i < n ==> #[trigger] repeated(seq![c], n)[i] == c,
    decreases n,
{
    if n > 0 {
        repeated_one(c, (n - 1) as nat);
    }
}

/// Repeating a character gives a text of that length with nothing else in it.
pub proof fn repeating_fills(c: char, n: nat)
    ensures
        repeated(seq![c], n) == Seq::new(n, |i: int| c),
{
    repeated_one(c, n);
    assert(repeated(seq![c], n) =~= Seq::new(n, |i: int| c));
}

/// Padding keeps the text, adds blanks behind it, and makes it as long as asked for if it
/// was shorter.
pub proof fn padding_adds_blanks(s: Seq<char>, width: nat)
    ensures
        padded(s, width).len() == if s.len() < width {
            width
        } else {
            s.len()
        },
        padded(s, width).take(s.len() as int) == s,
        forall|i: int| s.len() <= i < padded(s, width).len() ==> #[trigger] padded(s, width)[i] == ' ',
{
    if s.len() < width {
        repeated_one(' ', (width - s.len()) as nat);
    }
    assert(padded(s, width).take(s.len() as int) =~= s);
}

/// Replacing works piece by piece: it changes the characters that it is about, each by
/// itself, and leaves every other.
pub proof fn replacing_is_piecewise(a: Seq<char>, b: Seq<char>, c: char, with: Seq<char>)
    ensures
        replaced(a + b, c, with) == replaced(a, c, with) + replaced(b, c, with),
        replaced(seq![c], c, with) == with,
        !a.contains(c) ==> replaced(a, c, with) == a,
    decreases a.len(),
{
    let one = seq![c];
    assert(one.drop_first() =~= Seq::<char>::empty());
    assert(replaced(one.drop_first(), c, with) =~= Seq::<char>::empty());
    assert(replaced(one, c, with) =~= with + Seq::<char>::empty());
    assert(with + Seq::<char>::empty() =~= with);
    if a.len() == 0 {
        assert(a + b =~= b);
    } else {
        let rest = a.drop_first();
        assert((a + b).drop_first() =~= rest + b);
        replacing_is_piecewise(rest, b, c, with);
        assert(replaced(a + b, c, with) =~= replaced(a, c, with) + replaced(b, c, with));
        if !a.contains(c) {
            assert(a.contains(a[0]));
            assert(!rest.contains(c)) by {
                if rest.contains(c) {
                    let k = choose|k: int| 0 <= k < rest.len() && rest[k] == c;
                    assert(a[k + 1] == c);
                }
            }
            assert(a =~= seq![a[0]] + rest);
        }
    }
}

/// Lines, each with a line feed behind it.
pub open spec fn listing(lines: Seq<Seq<char>>) -> Seq<char>
    decreases lines.len(),
{
    if lines.len() == 0 {
        seq![]
    } else {
        lines[0] + seq!['\n'] + listing(lines.drop_first())
    }
}

/// A listing has as many filled lines as it has lines that hold something besides a
/// carriage return at the end.
pub proof fn listed_lines_are_counted(lines: Seq<Seq<char>>)
    requires
        forall|k: int| 0 <= k < lines.len() ==> !(#[trigger] lines[k]).contains('\n'),
    ensures
        filled_lines(listing(lines)) == lines.filter(
            |l: Seq<char>| l.len() > 0 && l != seq!['\r'],
        ).len(),
    decreases lines.len(),
{
    let p = |l: Seq<char>| l.len() > 0 && l != seq!['\r'];
    if lines.len() == 0 {
        reveal(Seq::filter);
    } else {
        let head = lines[0];
        let rest = lines.drop_first();
        let s = listing(lines);
        let n = head.len() as int;
        assert forall|k: int| 0 <= k < rest.len() implies !(#[trigger] rest[k]).contains('\n') by {
            assert(!lines[k + 1].contains('\n'));
        }
        listed_lines_are_counted(rest);
        assert forall|j: int| 0 <= j < n implies s[j] != '\n' by {
            assert(head.contains(head[j]));
        }
        assert(s[n] == '\n');
        first_at_is(s, '\n', n);
        assert(s.take(n) =~= head);
        assert(s.skip(n + 1) =~= listing(rest));
        if without_return(head).len() == 0 && head.len() > 0 {
            assert(head =~= seq!['\r']);
        }
        assert(lines =~= seq![head] + rest);
        Seq::filter_distributes_over_add(seq![head], rest, p);
        reveal_with_fuel(Seq::filter, 2);
        assert(seq![head].drop_last() =~= Seq::<Seq<char>>::empty());
    }
}

/// A text is what trimming leaves of it, with white space before and behind.
pub proof fn trimming_takes_white_space(s: Seq<char>) -> (r: (Seq<char>, Seq<char>))
    ensures
        s == r.0 + trimmed(s) + r.1,
        forall|i: int| 0 <= i < r.0.len() ==> is_space(#[trigger] r.0[i]),
        forall|i: int| 0 <= i < r.1.len() ==> is_space(#[trigger] r.1[i]),
        trimmed(s).len() > 0 ==> !is_space(trimmed(s)[0]) && !is_space(trimmed(s).last()),
    decreases s.len(),
{
    if s.len() > 0 && is_space(s[0]) {
        let (a, b) = trimming_takes_white_space(s.drop_first());
        let left = seq![s[0]] + a;
        assert(s =~= seq![s[0]] + s.drop_first());
        assert(s =~= left + trimmed(s) + b);
        assert forall|i: int| 0 <= i < left.len() implies is_space(#[trigger] left[i]) by {
            if i > 0 {
                assert(left[i] == a[i - 1]);
            }
        }
        (left, b)
    } else if s.len() > 0 && is_space(s.last()) {
        let t = s.drop_last();
        assert(t.len() > 0 ==> t[0] == s[0]);
        let (a, b) = trimming_takes_white_space(t);
        let right = b.push(s.last());
        assert(s =~= t.push(s.last()));
        assert(trimmed(s) == trimmed(t));
        assert(s =~= a + trimmed(s) + right);
        assert forall|i: int| 0 <= i < right.len() implies is_space(#[trigger] right[i]) by {
            if i < b.len() {
                assert(right[i] == b[i]);
            }
        }
        (a, right)
    } else {
        assert(s =~= Seq::<char>::empty() + trimmed(s) + Seq::<char>::empty());
        (Seq::empty(), Seq::empty())
    }
}

/// Trimming leaves nothing exactly of texts that hold nothing but white space.
pub proof fn blank_texts_trim_to_nothing(s: Seq<char>)
    ensures
        trimmed(s).len() == 0 <==> (forall|i: int| 0 <= i < s.len() ==> is_space(#[trigger] s[i])),
{
    let (a, b) = trimming_takes_white_space(s);
    let t = trimmed(s);
    if t.len() == 0 {
        assert forall|i: int| 0 <= i < s.len() implies is_space(#[trigger] s[i]) by {
            if i < a.len() {
                assert(s[i] == a[i]);
            } else {
                assert(s[i] == b[i - a.len()]);
            }
        }
    } else {
        assert(s[a.len() as int] == t[0]);
    }
}

} // verus!
