//! Text primitives over `Seq<char>`: searching, splitting, trimming and joining.
//!
//! Every executable function here is verified against a spec function on the
//! character sequence of its argument.

use vstd::prelude::*;
use vstd::string::*;

verus! {

/// The character sequences of a vector of strings.
pub open spec fn views(v: Seq<String>) -> Seq<Seq<char>> {
    Seq::new(v.len(), |i: int| v[i]@)
}

/// The character sequence of an optional string.
pub open spec fn opt_view(o: Option<String>) -> Option<Seq<char>> {
    match o {
        Some(s) => Some(s@),
        None => None,
    }
}

/// Whether `c` occurs in `s`.
pub open spec fn has_char(s: Seq<char>, c: char) -> bool {
    exists|i: int| 0 <= i < s.len() && s[i] == c
}

/// Index of the first `c` in `s`, or `s.len()` when there is none.
pub open spec fn find(s: Seq<char>, c: char) -> int
    decreases s.len(),
{
    if s.len() == 0 {
        0
    } else if s[0] == c {
        0
    } else {
        1 + find(s.drop_first(), c)
    }
}

/// The pieces of `s` between occurrences of `c`; always at least one piece.
pub open spec fn split(s: Seq<char>, c: char) -> Seq<Seq<char>>
    decreases s.len(),
{
    let i = find(s, c);
    if 0 <= i < s.len() {
        seq![s.subrange(0, i)] + split(s.subrange(i + 1, s.len() as int), c)
    } else {
        seq![s]
    }
}

/// `s` without one trailing carriage return.
pub open spec fn strip_cr(s: Seq<char>) -> Seq<char> {
    if s.len() > 0 && s.last() == '\r' {
        s.drop_last()
    } else {
        s
    }
}

/// The lines of `s`. A line ends at `\n` or `\r\n`; the ending of the last
/// line is optional, so a final ending opens no further empty line.
pub open spec fn lines(s: Seq<char>) -> Seq<Seq<char>>
    decreases s.len(),
{
    if s.len() == 0 {
        seq![]
    } else {
        let i = find(s, '\n');
        if 0 <= i < s.len() {
            seq![strip_cr(s.subrange(0, i))] + lines(s.subrange(i + 1, s.len() as int))
        } else {
            seq![s]
        }
    }
}

/// Number of leading characters of `s` equal to `c`.
pub open spec fn leading(s: Seq<char>, c: char) -> int
    decreases s.len(),
{
    if s.len() > 0 && s[0] == c {
        1 + leading(s.drop_first(), c)
    } else {
        0
    }
}

/// Number of trailing characters of `s` equal to `c`.
pub open spec fn trailing(s: Seq<char>, c: char) -> int
    decreases s.len(),
{
    if s.len() > 0 && s.last() == c {
        1 + trailing(s.drop_last(), c)
    } else {
        0
    }
}

/// `s` without its leading run of `c`.
pub open spec fn trim_start_of(s: Seq<char>, c: char) -> Seq<char> {
    s.subrange(leading(s, c), s.len() as int)
}

/// `s` without its trailing run of `c`.
pub open spec fn trim_end_of(s: Seq<char>, c: char) -> Seq<char> {
    s.subrange(0, s.len() - trailing(s, c))
}

/// The characters with the Unicode property `White_Space`.
pub open spec fn is_space(c: char) -> bool {
    ||| ('\u{9}' <= c && c <= '\u{d}')
    ||| c == ' '
    ||| c == '\u{85}'
    ||| c == '\u{a0}'
    ||| c == '\u{1680}'
    ||| ('\u{2000}' <= c && c <= '\u{200a}')
    ||| c == '\u{2028}'
    ||| c == '\u{2029}'
    ||| c == '\u{202f}'
    ||| c == '\u{205f}'
    ||| c == '\u{3000}'
}

/// Number of leading white-space characters of `s`.
pub open spec fn leading_space(s: Seq<char>) -> int
    decreases s.len(),
{
    if s.len() > 0 && is_space(s[0]) {
        1 + leading_space(s.drop_first())
    } else {
        0
    }
}

/// Number of trailing white-space characters of `s`.
pub open spec fn trailing_space(s: Seq<char>) -> int
    decreases s.len(),
{
    if s.len() > 0 && is_space(s.last()) {
        1 + trailing_space(s.drop_last())
    } else {
        0
    }
}

/// `s` without leading and trailing white space.
pub open spec fn trimmed(s: Seq<char>) -> Seq<char> {
    let t = s.subrange(leading_space(s), s.len() as int);
    t.subrange(0, t.len() - trailing_space(t))
}

/// The items of `items` with `sep` between each two neighbours.
pub open spec fn join(items: Seq<Seq<char>>, sep: Seq<char>) -> Seq<char>
    decreases items.len(),
{
    if items.len() == 0 {
        seq![]
    } else if items.len() == 1 {
        items[0]
    } else {
        join(items.drop_last(), sep) + sep + items.last()
    }
}

/// The items of `items` that are not empty, in order.
pub open spec fn non_empty(items: Seq<Seq<char>>) -> Seq<Seq<char>>
    decreases items.len(),
{
    if items.len() == 0 {
        seq![]
    } else if items.last().len() > 0 {
        non_empty(items.drop_last()).push(items.last())
    } else {
        non_empty(items.drop_last())
    }
}

/// `find` lands on the first occurrence, and nothing before it matches.
pub proof fn lemma_find(s: Seq<char>, c: char)
    ensures
        0 <= find(s, c) <= s.len(),
        forall|k: int| 0 <= k < find(s, c) ==> s[k] != c,
        find(s, c) < s.len() ==> s[find(s, c)] == c,
        find(s, c) == s.len() <==> !has_char(s, c),
    decreases s.len(),
{
    if s.len() > 0 && s[0] != c {
        let t = s.drop_first();
        lemma_find(t, c);
        assert forall|k: int| 0 <= k < find(s, c) implies s[k] != c by {
            if k > 0 {
                assert(s[k] == t[k - 1]);
            }
        }
        if find(s, c) < s.len() {
            assert(s[find(s, c)] == t[find(t, c)]);
        }
        if has_char(t, c) {
            let i = choose|i: int| 0 <= i < t.len() && t[i] == c;
            assert(s[i + 1] == c);
        }
        if has_char(s, c) {
            let i = choose|i: int| 0 <= i < s.len() && s[i] == c;
            assert(t[i - 1] == c);
        }
    } else if s.len() > 0 {
        assert(s[0] == c);
    }
}

/// An index with the defining property of `find` is `find`.
pub proof fn lemma_find_is(s: Seq<char>, c: char, i: int)
    requires
        0 <= i <= s.len(),
        forall|k: int| 0 <= k < i ==> s[k] != c,
        i < s.len() ==> s[i] == c,
    ensures
        find(s, c) == i,
{
    lemma_find(s, c);
    let f = find(s, c);
    if f < i {
        assert(s[f] == c);
    } else if f > i {
        assert(s[i] == c);
    }
}

/// `leading` counts a run of `c` that ends before any other character.
pub proof fn lemma_leading_is(s: Seq<char>, c: char, n: int)
    requires
        0 <= n <= s.len(),
        forall|k: int| 0 <= k < n ==> s[k] == c,
        n < s.len() ==> s[n] != c,
    ensures
        leading(s, c) == n,
    decreases s.len(),
{
    if n > 0 {
        let t = s.drop_first();
        assert forall|k: int| 0 <= k < n - 1 implies t[k] == c by {
            assert(t[k] == s[k + 1]);
        }
        lemma_leading_is(t, c, n - 1);
    }
}

/// `trailing` counts a run of `c` that starts after any other character.
pub proof fn lemma_trailing_is(s: Seq<char>, c: char, n: int)
    requires
        0 <= n <= s.len(),
        forall|k: int| s.len() - n <= k < s.len() ==> s[k] == c,
        n < s.len() ==> s[s.len() - n - 1] != c,
    ensures
        trailing(s, c) == n,
    decreases s.len(),
{
    if n > 0 {
        let t = s.drop_last();
        assert forall|k: int| t.len() - (n - 1) <= k < t.len() implies t[k] == c by {
            assert(t[k] == s[k]);
        }
        lemma_trailing_is(t, c, n - 1);
    }
}

/// `leading_space` counts a run of white space that ends before any other character.
pub proof fn lemma_leading_space_is(s: Seq<char>, n: int)
    requires
        0 <= n <= s.len(),
        forall|k: int| 0 <= k < n ==> is_space(s[k]),
        n < s.len() ==> !is_space(s[n]),
    ensures
        leading_space(s) == n,
    decreases s.len(),
{
    if n > 0 {
        let t = s.drop_first();
        assert forall|k: int| 0 <= k < n - 1 implies is_space(t[k]) by {
            assert(t[k] == s[k + 1]);
        }
        lemma_leading_space_is(t, n - 1);
    }
}

/// `trailing_space` counts a run of white space that starts after any other character.
pub proof fn lemma_trailing_space_is(s: Seq<char>, n: int)
    requires
        0 <= n <= s.len(),
        forall|k: int| s.len() - n <= k < s.len() ==> is_space(s[k]),
        n < s.len() ==> !is_space(s[s.len() - n - 1]),
    ensures
        trailing_space(s) == n,
    decreases s.len(),
{
    if n > 0 {
        let t = s.drop_last();
        assert forall|k: int| t.len() - (n - 1) <= k < t.len() implies is_space(t[k]) by {
            assert(t[k] == s[k]);
        }
        lemma_trailing_space_is(t, n - 1);
    }
}

/// A character occurs in a concatenation exactly when it occurs in a part.
pub proof fn lemma_has_char_concat(a: Seq<char>, b: Seq<char>, c: char)
    ensures
        has_char(a + b, c) <==> has_char(a, c) || has_char(b, c),
{
    let s = a + b;
    if has_char(a, c) {
        let i = choose|i: int| 0 <= i < a.len() && a[i] == c;
        assert(s[i] == c);
    }
    if has_char(b, c) {
        let i = choose|i: int| 0 <= i < b.len() && b[i] == c;
        assert(s[a.len() + i] == c);
    }
    if has_char(s, c) {
        let i = choose|i: int| 0 <= i < s.len() && s[i] == c;
        if i < a.len() {
            assert(a[i] == c);
        } else {
            assert(b[i - a.len()] == c);
        }
    }
}

/// A text that ends its first line with `\n` has that line first, and the
/// lines of the rest after it.
pub proof fn lemma_lines_cons(a: Seq<char>, rest: Seq<char>)
    requires
        !has_char(a, '\n'),
    ensures
        lines(a + seq!['\n'] + rest) == seq![strip_cr(a)] + lines(rest),
{
    let s = a + seq!['\n'] + rest;
    assert forall|k: int| 0 <= k < a.len() implies s[k] != '\n' by {
        assert(s[k] == a[k]);
    }
    assert(s[a.len() as int] == '\n');
    lemma_find_is(s, '\n', a.len() as int);
    assert(s.subrange(0, a.len() as int) =~= a);
    assert(s.subrange(a.len() as int + 1, s.len() as int) =~= rest);
}

/// Cutting a text always leaves at least one piece.
pub proof fn lemma_split_is_not_empty(s: Seq<char>, c: char)
    ensures
        split(s, c).len() >= 1,
{
}

/// A text without `c` is its own single piece.
pub proof fn lemma_split_none(a: Seq<char>, c: char)
    requires
        !has_char(a, c),
    ensures
        split(a, c) == seq![a],
{
    lemma_find(a, c);
}

/// A text whose first `c` follows `a` has `a` as its first piece, and the
/// pieces of the rest after it.
pub proof fn lemma_split_cons(a: Seq<char>, c: char, rest: Seq<char>)
    requires
        !has_char(a, c),
    ensures
        split(a + seq![c] + rest, c) == seq![a] + split(rest, c),
{
    let s = a + seq![c] + rest;
    assert forall|k: int| 0 <= k < a.len() implies s[k] != c by {
        assert(s[k] == a[k]);
    }
    assert(s[a.len() as int] == c);
    lemma_find_is(s, c, a.len() as int);
    assert(s.subrange(0, a.len() as int) =~= a);
    assert(s.subrange(a.len() as int + 1, s.len() as int) =~= rest);
}

/// Joining two or more items puts the first, then the separator, then the
/// others joined.
pub proof fn lemma_join_left(items: Seq<Seq<char>>, sep: Seq<char>)
    requires
        items.len() >= 2,
    ensures
        join(items, sep) == items[0] + sep + join(items.drop_first(), sep),
    decreases items.len(),
{
    let tail = items.drop_first();
    let init = items.drop_last();
    if items.len() == 2 {
        assert(init.len() == 1 && init[0] == items[0]);
        assert(tail.len() == 1 && tail[0] == items[1]);
        assert(join(init, sep) == items[0]);
        assert(join(tail, sep) == items[1]);
        assert(items.last() == items[1]);
        assert(join(items, sep) == join(init, sep) + sep + items.last());
    } else {
        lemma_join_left(init, sep);
        assert(init.drop_first() =~= tail.drop_last());
        assert(init[0] == items[0]);
        assert(tail.last() == items.last());
        assert(join(tail, sep) == join(tail.drop_last(), sep) + sep + tail.last());
        assert(join(items, sep) =~= items[0] + sep + join(tail, sep));
    }
}

/// Cutting joined items at the separator gives the items back, as long as
/// there is at least one and none of them holds the separator.
pub proof fn lemma_split_join(items: Seq<Seq<char>>, c: char)
    requires
        items.len() >= 1,
        forall|i: int| 0 <= i < items.len() ==> !has_char(#[trigger] items[i], c),
    ensures
        split(join(items, seq![c]), c) == items,
    decreases items.len(),
{
    if items.len() == 1 {
        lemma_split_none(items[0], c);
        assert(seq![items[0]] =~= items);
    } else {
        let tail = items.drop_first();
        lemma_join_left(items, seq![c]);
        assert forall|i: int| 0 <= i < tail.len() implies !has_char(#[trigger] tail[i], c) by {
            assert(tail[i] == items[i + 1]);
        }
        lemma_split_join(tail, c);
        lemma_split_cons(items[0], c, join(tail, seq![c]));
        assert(seq![items[0]] + tail =~= items);
    }
}

/// Dropping the empty items changes nothing where no item is empty.
pub proof fn lemma_non_empty_keeps_all(items: Seq<Seq<char>>)
    requires
        forall|i: int| 0 <= i < items.len() ==> (#[trigger] items[i]).len() > 0,
    ensures
        non_empty(items) == items,
    decreases items.len(),
{
    if items.len() > 0 {
        let init = items.drop_last();
        assert forall|i: int| 0 <= i < init.len() implies (#[trigger] init[i]).len() > 0 by {
            assert(init[i] == items[i]);
        }
        lemma_non_empty_keeps_all(init);
        assert(init.push(items.last()) =~= items);
    } else {
        assert(non_empty(items) =~= items);
    }
}

/// Joined items begin as the first item begins and end as the last item
/// ends, as long as there is an item and none is empty.
pub proof fn lemma_join_ends(items: Seq<Seq<char>>, sep: Seq<char>)
    requires
        items.len() >= 1,
        forall|i: int| 0 <= i < items.len() ==> (#[trigger] items[i]).len() > 0,
    ensures
        join(items, sep).len() > 0,
        join(items, sep)[0] == items[0][0],
        join(items, sep).last() == items.last().last(),
{
    assert(items[0].len() > 0);
    assert(items.last() == items[items.len() - 1]);
    if items.len() >= 2 {
        lemma_join_left(items, sep);
    }
}

/// Joined items hold a character only if an item or the separator holds it.
pub proof fn lemma_join_lacks(items: Seq<Seq<char>>, sep: Seq<char>, c: char)
    requires
        forall|i: int| 0 <= i < items.len() ==> !has_char(#[trigger] items[i], c),
        !has_char(sep, c),
    ensures
        !has_char(join(items, sep), c),
    decreases items.len(),
{
    if items.len() >= 2 {
        let init = items.drop_last();
        assert forall|i: int| 0 <= i < init.len() implies !has_char(#[trigger] init[i], c) by {
            assert(init[i] == items[i]);
        }
        lemma_join_lacks(init, sep, c);
        lemma_has_char_concat(join(init, sep), sep, c);
        lemma_has_char_concat(join(init, sep) + sep, items.last(), c);
        assert(items.last() == items[items.len() - 1]);
    } else if items.len() == 1 {
        assert(!has_char(items[0], c));
    }
}

/// Whether `s` begins with `prefix`.
pub open spec fn starts_with(s: Seq<char>, prefix: Seq<char>) -> bool {
    s.len() >= prefix.len() && s.subrange(0, prefix.len() as int) == prefix
}

/// Whether `s` begins with `prefix`.
pub fn begins_with(s: &str, prefix: &str) -> (r: bool)
    ensures
        r == starts_with(s@, prefix@),
{
    let n: usize = prefix.unicode_len();
    if s.unicode_len() < n {
        return false;
    }
    let head = slice(s, 0, n);
    str_eq(head.as_str(), prefix)
}

/// Whether two strings hold the same characters.
pub fn str_eq(a: &str, b: &str) -> (r: bool)
    ensures
        r == (a@ == b@),
{
    let x = a.to_owned();
    let y = b.to_owned();
    x == y
}

/// An owned copy of the characters `from..to` of `s`.
pub fn slice(s: &str, from: usize, to: usize) -> (r: String)
    requires
        from <= to <= s@.len(),
    ensures
        r@ == s@.subrange(from as int, to as int),
{
    s.substring_char(from, to).to_owned()
}

/// Position of the first `c` at or after `from`, or the length of `s`.
pub fn find_from(s: &str, c: char, from: usize) -> (r: usize)
    requires
        from <= s@.len(),
    ensures
        from <= r <= s@.len(),
        r - from == find(s@.subrange(from as int, s@.len() as int), c),
{
    let n: usize = s.unicode_len();
    let mut i: usize = from;
    while i < n && s.get_char(i) != c
        invariant
            n == s@.len(),
            from <= i <= n,
            forall|k: int| from <= k < i ==> s@[k] != c,
        decreases n - i,
    {
        i = i + 1;
    }
    proof {
        lemma_find_is(s@.subrange(from as int, n as int), c, i - from);
    }
    i
}

/// Whether `c` occurs in `s`.
pub fn contains_char(s: &str, c: char) -> (r: bool)
    ensures
        r == has_char(s@, c),
{
    let n: usize = s.unicode_len();
    let i: usize = find_from(s, c, 0);
    proof {
        assert(s@.subrange(0, n as int) == s@);
        lemma_find(s@, c);
    }
    i < n
}

/// The pieces of `s` between occurrences of `c`.
pub fn split_char(s: &str, c: char) -> (r: Vec<String>)
    ensures
        views(r@) == split(s@, c),
{
    let n: usize = s.unicode_len();
    let mut out: Vec<String> = Vec::new();
    let mut pos: usize = 0;
    proof {
        assert(s@.subrange(0, n as int) == s@);
        assert(views(out@) + split(s@, c) == split(s@, c));
    }
    loop
        invariant
            n == s@.len(),
            pos <= n,
            split(s@, c) == views(out@) + split(s@.subrange(pos as int, n as int), c),
        decreases n - pos,
    {
        let ghost rest = s@.subrange(pos as int, n as int);
        let ghost before = views(out@);
        let i: usize = find_from(s, c, pos);
        let piece = slice(s, pos, i);
        out.push(piece);
        if i >= n {
            proof {
                assert(piece@ == rest);
                assert(views(out@) == before + seq![rest]);
            }
            return out;
        }
        proof {
            assert(rest.subrange(0, i - pos) == piece@);
            assert(rest.subrange(i - pos + 1, rest.len() as int) == s@.subrange(
                i + 1,
                n as int,
            ));
            assert(views(out@) == before + seq![piece@]);
        }
        pos = i + 1;
    }
}

/// The lines of `s`, without their line endings.
pub fn lines_of(s: &str) -> (r: Vec<String>)
    ensures
        views(r@) == lines(s@),
{
    let n: usize = s.unicode_len();
    let mut out: Vec<String> = Vec::new();
    let mut pos: usize = 0;
    proof {
        assert(s@.subrange(0, n as int) == s@);
        assert(views(out@) + lines(s@) == lines(s@));
    }
    while pos < n
        invariant
            n == s@.len(),
            pos <= n,
            lines(s@) == views(out@) + lines(s@.subrange(pos as int, n as int)),
        decreases n - pos,
    {
        let ghost rest = s@.subrange(pos as int, n as int);
        let ghost before = views(out@);
        let i: usize = find_from(s, '\n', pos);
        if i >= n {
            let piece = slice(s, pos, n);
            out.push(piece);
            proof {
                assert(piece@ == rest);
                assert(views(out@) == before + seq![rest]);
                assert(s@.subrange(n as int, n as int).len() == 0);
            }
            pos = n;
        } else {
            let end: usize = if i > pos && s.get_char(i - 1) == '\r' {
                i - 1
            } else {
                i
            };
            let piece = slice(s, pos, end);
            out.push(piece);
            proof {
                let raw = rest.subrange(0, i - pos);
                assert(raw == s@.subrange(pos as int, i as int));
                if raw.len() > 0 {
                    assert(raw.last() == s@[i - 1]);
                }
                assert(piece@ == strip_cr(raw));
                assert(rest.subrange(i - pos + 1, rest.len() as int) == s@.subrange(
                    i + 1,
                    n as int,
                ));
                assert(views(out@) == before + seq![piece@]);
            }
            pos = i + 1;
        }
    }
    proof {
        assert(views(out@) + Seq::<Seq<char>>::empty() == views(out@));
    }
    out
}

/// `s` without its leading run of `c`.
pub fn trim_start_matches(s: &str, c: char) -> (r: String)
    ensures
        r@ == trim_start_of(s@, c),
{
    let n: usize = s.unicode_len();
    let mut i: usize = 0;
    while i < n && s.get_char(i) == c
        invariant
            n == s@.len(),
            i <= n,
            forall|k: int| 0 <= k < i ==> s@[k] == c,
        decreases n - i,
    {
        i = i + 1;
    }
    proof {
        lemma_leading_is(s@, c, i as int);
    }
    slice(s, i, n)
}

/// `s` without its trailing run of `c`.
pub fn trim_end_matches(s: &str, c: char) -> (r: String)
    ensures
        r@ == trim_end_of(s@, c),
{
    let n: usize = s.unicode_len();
    let mut i: usize = n;
    while i > 0 && s.get_char(i - 1) == c
        invariant
            n == s@.len(),
            i <= n,
            forall|k: int| i <= k < n ==> s@[k] == c,
        decreases i,
    {
        i = i - 1;
    }
    proof {
        lemma_trailing_is(s@, c, n - i);
    }
    slice(s, 0, i)
}

/// Whether `c` has the Unicode property `White_Space`.
pub fn is_whitespace(c: char) -> (r: bool)
    ensures
        r == is_space(c),
{
    ('\u{9}' <= c && c <= '\u{d}') || c == ' ' || c == '\u{85}' || c == '\u{a0}' || c
        == '\u{1680}' || ('\u{2000}' <= c && c <= '\u{200a}') || c == '\u{2028}' || c
        == '\u{2029}' || c == '\u{202f}' || c == '\u{205f}' || c == '\u{3000}'
}

/// `s` without leading and trailing white space.
pub fn trim(s: &str) -> (r: String)
    ensures
        r@ == trimmed(s@),
{
    let n: usize = s.unicode_len();
    let mut i: usize = 0;
    while i < n && is_whitespace(s.get_char(i))
        invariant
            n == s@.len(),
            i <= n,
            forall|k: int| 0 <= k < i ==> is_space(s@[k]),
        decreases n - i,
    {
        i = i + 1;
    }
    let mut j: usize = n;
    while j > i && is_whitespace(s.get_char(j - 1))
        invariant
            n == s@.len(),
            i <= j <= n,
            forall|k: int| j <= k < n ==> is_space(s@[k]),
        decreases j,
    {
        j = j - 1;
    }
    proof {
        lemma_leading_space_is(s@, i as int);
        let t = s@.subrange(i as int, n as int);
        assert forall|k: int| t.len() - (n - j) <= k < t.len() implies is_space(t[k]) by {
            assert(t[k] == s@[k + i]);
        }
        if n - j < t.len() {
            assert(t[t.len() - (n - j) - 1] == s@[j - 1]);
        }
        lemma_trailing_space_is(t, n - j);
        assert(t.subrange(0, t.len() - (n - j)) == s@.subrange(i as int, j as int));
    }
    slice(s, i, j)
}

/// The items with `sep` between each two neighbours.
pub fn join_with(items: &Vec<String>, sep: &str) -> (r: String)
    ensures
        r@ == join(views(items@), sep@),
{
    let mut out = String::new();
    let mut i: usize = 0;
    while i < items.len()
        invariant
            i <= items.len(),
            out@ == join(views(items@).take(i as int), sep@),
        decreases items.len() - i,
    {
        proof {
            let next = views(items@).take(i + 1);
            assert(next.drop_last() == views(items@).take(i as int));
            assert(next.last() == items@[i as int]@);
            if i > 0 {
                assert(join(next, sep@) == join(next.drop_last(), sep@) + sep@ + next.last());
            } else {
                assert(join(next, sep@) == next[0]);
            }
        }
        if i > 0 {
            out.append(sep);
        }
        out.append(items[i].as_str());
        i = i + 1;
    }
    proof {
        assert(views(items@).take(items.len() as int) == views(items@));
    }
    out
}

/// The strings of `items` that are not empty, in order.
pub fn drop_empty(items: Vec<String>) -> (r: Vec<String>)
    ensures
        views(r@) == non_empty(views(items@)),
{
    let mut out: Vec<String> = Vec::new();
    let mut i: usize = 0;
    while i < items.len()
        invariant
            i <= items.len(),
            views(out@) == non_empty(views(items@).take(i as int)),
        decreases items.len() - i,
    {
        let ghost before = views(out@);
        let ghost next = views(items@).take(i + 1);
        proof {
            assert(next.drop_last() == views(items@).take(i as int));
            assert(next.last() == items@[i as int]@);
        }
        if items[i].as_str().unicode_len() > 0 {
            out.push(items[i].clone());
            assert(views(out@) == before.push(items@[i as int]@));
        }
        i = i + 1;
    }
    proof {
        assert(views(items@).take(items.len() as int) == views(items@));
    }
    out
}

/// The characters of `a` followed by those of `b`.
pub fn concat2(a: &str, b: &str) -> (r: String)
    ensures
        r@ == a@ + b@,
{
    let mut out = a.to_owned();
    out.append(b);
    out
}

/// The characters of `a`, `b` and `c` in a row.
pub fn concat3(a: &str, b: &str, c: &str) -> (r: String)
    ensures
        r@ == a@ + b@ + c@,
{
    let mut out = a.to_owned();
    out.append(b);
    out.append(c);
    out
}

/// A copy of every string of `v`, in order.
pub fn clone_strings(v: &Vec<String>) -> (r: Vec<String>)
    ensures
        views(r@) == views(v@),
{
    let mut out: Vec<String> = Vec::new();
    let mut i: usize = 0;
    while i < v.len()
        invariant
            i <= v.len(),
            views(out@) == views(v@).take(i as int),
        decreases v.len() - i,
    {
        out.push(v[i].clone());
        proof {
            assert(views(out@) == views(v@).take(i as int).push(v@[i as int]@));
            assert(views(v@).take(i + 1) == views(v@).take(i as int).push(v@[i as int]@));
        }
        i = i + 1;
    }
    proof {
        assert(views(v@).take(v.len() as int) == views(v@));
    }
    out
}

/// Appends a copy of every string of `more` to `base`, in order.
pub fn extend_strings(base: &mut Vec<String>, more: &Vec<String>)
    ensures
        views(final(base)@) == views(old(base)@) + views(more@),
{
    let mut i: usize = 0;
    while i < more.len()
        invariant
            i <= more.len(),
            views(base@) == views(old(base)@) + views(more@).take(i as int),
        decreases more.len() - i,
    {
        let ghost before = views(base@);
        base.push(more[i].clone());
        proof {
            assert(views(base@) == before.push(more@[i as int]@));
            assert(views(more@).take(i + 1) == views(more@).take(i as int).push(
                more@[i as int]@,
            ));
        }
        i = i + 1;
    }
    proof {
        assert(views(more@).take(more.len() as int) == views(more@));
    }
}

} // verus!
