//! Splitting text into words or lines, and small comparisons on text.

use vstd::prelude::*;
use vstd::string::*;

verus! {

/// The characters that `char::is_whitespace` accepts (Unicode `White_Space`).
pub open spec fn is_space(c: char) -> bool {
    ('\u{9}' <= c && c <= '\u{d}') || c == ' ' || c == '\u{85}' || c == '\u{a0}' || c == '\u{1680}'
        || ('\u{2000}' <= c && c <= '\u{200a}') || c == '\u{2028}' || c == '\u{2029}'
        || c == '\u{202f}' || c == '\u{205f}' || c == '\u{3000}'
}

/// What separates the pieces of a text.
#[derive(Clone, Copy, Debug, PartialEq, Eq, Structural)]
pub enum Sep {
    /// Any white space: the pieces are words.
    Space,
    /// A line feed: the pieces are the non-empty lines.
    Newline,
}

pub open spec fn is_sep(kind: Sep, c: char) -> bool {
    match kind {
        Sep::Space => is_space(c),
        Sep::Newline => c == '\n',
    }
}

/// The pieces completed so far and the piece being read, after reading `s`.
pub open spec fn split_state(s: Seq<char>, kind: Sep) -> (Seq<Seq<char>>, Seq<char>)
    decreases s.len(),
{
    if s.len() == 0 {
        (Seq::empty(), Seq::empty())
    } else {
        let (done, cur) = split_state(s.drop_last(), kind);
        if is_sep(kind, s.last()) {
            if cur.len() > 0 {
                (done.push(cur), Seq::empty())
            } else {
                (done, Seq::empty())
            }
        } else {
            (done, cur.push(s.last()))
        }
    }
}

/// The maximal runs of `s` without a separator, in order.
pub open spec fn pieces(s: Seq<char>, kind: Sep) -> Seq<Seq<char>> {
    let (done, cur) = split_state(s, kind);
    if cur.len() > 0 {
        done.push(cur)
    } else {
        done
    }
}

/// The words of `s`, as `str::split_whitespace` gives them.
pub open spec fn words(s: Seq<char>) -> Seq<Seq<char>> {
    pieces(s, Sep::Space)
}

pub open spec fn views(v: Seq<String>) -> Seq<Seq<char>> {
    v.map_values(|t: String| t@)
}

/// A word that opens a comment.
pub open spec fn is_comment(t: Seq<char>) -> bool {
    t.len() > 0 && t[0] == '#'
}

pub proof fn lemma_split_state_cur(s: Seq<char>, kind: Sep, start: int)
    requires
        0 <= start <= s.len(),
        split_state(s.take(start), kind).1.len() == 0,
        forall|j: int| start <= j < s.len() ==> !is_sep(kind, s[j]),
    ensures
        split_state(s, kind).1 == s.subrange(start, s.len() as int),
        split_state(s, kind).0 == split_state(s.take(start), kind).0,
    decreases s.len() - start,
{
    if s.len() > start {
        let pre = s.drop_last();
        assert(pre.take(start) =~= s.take(start));
        lemma_split_state_cur(pre, kind, start);
        assert(s.subrange(start, s.len() as int) =~= pre.subrange(start, pre.len() as int).push(s.last()));
    } else {
        assert(s.take(start) =~= s);
        assert(s.subrange(start, s.len() as int) =~= Seq::<char>::empty());
    }
}

/// Splits `s` into its pieces.
pub fn split(s: &str, kind: Sep) -> (r: Vec<String>)
    ensures
        views(r@) == pieces(s@, kind),
{
    let n = s.unicode_len();
    let mut out: Vec<String> = Vec::new();
    let mut start: usize = 0;
    let mut i: usize = 0;
    while i < n
        invariant
            n == s@.len(),
            start <= i <= n,
            views(out@) == split_state(s@.take(start as int), kind).0,
            split_state(s@.take(start as int), kind).1.len() == 0,
            forall|j: int| start <= j < i ==> !is_sep(kind, s@[j]),
        decreases n - i,
    {
        let c = s.get_char(i);
        let sep = match kind {
            Sep::Space => is_white(c),
            Sep::Newline => c == '\n',
        };
        if sep {
            proof {
                lemma_split_state_cur(s@.take(i as int), kind, start as int);
                assert(s@.take(i as int).take(start as int) =~= s@.take(start as int));
                assert(s@.take(i + 1).drop_last() =~= s@.take(i as int));
                assert(s@.take(i as int).subrange(start as int, i as int) =~= s@.subrange(start as int, i as int));
            }
            if start < i {
                let w = s.substring_char(start, i).to_owned();
                out.push(w);
                proof {
                    assert(views(out@) =~= split_state(s@.take(i + 1), kind).0);
                }
            } else {
                proof {
                    assert(views(out@) =~= split_state(s@.take(i + 1), kind).0);
                }
            }
            start = i + 1;
        }
        i += 1;
    }
    proof {
        assert(s@.take(n as int) =~= s@);
        lemma_split_state_cur(s@, kind, start as int);
        assert(s@.take(n as int).take(start as int) =~= s@.take(start as int));
    }
    if start < n {
        let w = s.substring_char(start, n).to_owned();
        out.push(w);
        proof {
            assert(views(out@) =~= pieces(s@, kind));
        }
    } else {
        proof {
            assert(s@.subrange(start as int, n as int) =~= Seq::<char>::empty());
            assert(views(out@) =~= pieces(s@, kind));
        }
    }
    out
}

/// Whether `c` is white space, as `char::is_whitespace` decides it.
pub fn is_white(c: char) -> (r: bool)
    ensures
        r == is_space(c),
{
    ('\u{9}' <= c && c <= '\u{d}') || c == ' ' || c == '\u{85}' || c == '\u{a0}' || c == '\u{1680}'
        || ('\u{2000}' <= c && c <= '\u{200a}') || c == '\u{2028}' || c == '\u{2029}'
        || c == '\u{202f}' || c == '\u{205f}' || c == '\u{3000}'
}

/// Whether two texts hold the same characters.
pub fn same_text(a: &str, b: &str) -> (r: bool)
    ensures
        r == (a@ == b@),
{
    let n = a.unicode_len();
    if n != b.unicode_len() {
        return false;
    }
    let mut i: usize = 0;
    while i < n
        invariant
            n == a@.len() == b@.len(),
            i <= n,
            forall|j: int| 0 <= j < i ==> a@[j] == b@[j],
        decreases n - i,
    {
        if a.get_char(i) != b.get_char(i) {
            return false;
        }
        i += 1;
    }
    assert(a@ =~= b@);
    true
}

/// Whether `t` opens a comment.
pub fn starts_comment(t: &str) -> (r: bool)
    ensures
        r == is_comment(t@),
{
    t.unicode_len() > 0 && t.get_char(0) == '#'
}

/// Position of the first `=` of `s`, or its length where it has none.
pub open spec fn first_eq(s: Seq<char>) -> int
    decreases s.len(),
{
    if s.len() == 0 {
        0
    } else {
        let p = first_eq(s.drop_last());
        if p < s.len() - 1 {
            p
        } else if s.last() == '=' {
            s.len() - 1
        } else {
            s.len() as int
        }
    }
}

proof fn lemma_first_eq_bound(s: Seq<char>)
    ensures
        0 <= first_eq(s) <= s.len(),
    decreases s.len(),
{
    if s.len() > 0 {
        lemma_first_eq_bound(s.drop_last());
    }
}

/// `s` cut at its first `=`, without the `=`.
pub open spec fn split_eq(s: Seq<char>) -> Option<(Seq<char>, Seq<char>)> {
    let p = first_eq(s);
    if p < s.len() {
        Some((s.take(p), s.skip(p + 1)))
    } else {
        None
    }
}

/// Cuts `s` at its first `=`.
pub fn split_at_eq(s: &str) -> (r: Option<(String, String)>)
    ensures
        match r {
            Some(p) => split_eq(s@) == Some((p.0@, p.1@)),
            None => split_eq(s@) is None,
        },
{
    let n = s.unicode_len();
    let mut pos: usize = 0;
    let mut i: usize = 0;
    while i < n
        invariant
            n == s@.len(),
            i <= n,
            pos == first_eq(s@.take(i as int)),
            pos <= i,
        decreases n - i,
    {
        proof {
            assert(s@.take(i + 1).drop_last() =~= s@.take(i as int));
        }
        if pos == i {
            if s.get_char(i) == '=' {
                pos = i;
            } else {
                pos = i + 1;
            }
        }
        i += 1;
    }
    proof {
        assert(s@.take(n as int) =~= s@);
        lemma_first_eq_bound(s@);
    }
    if pos < n {
        let k = s.substring_char(0, pos).to_owned();
        let v = s.substring_char(pos + 1, n).to_owned();
        proof {
            assert(s@.subrange(0, pos as int) =~= s@.take(pos as int));
            assert(s@.subrange(pos + 1, n as int) =~= s@.skip(pos + 1));
        }
        Some((k, v))
    } else {
        None
    }
}

/// The pieces of `ws` written out with `c` between each two.
pub open spec fn join(ws: Seq<Seq<char>>, c: char) -> Seq<char>
    decreases ws.len(),
{
    if ws.len() == 0 {
        Seq::empty()
    } else if ws.len() == 1 {
        ws[0]
    } else {
        join(ws.drop_last(), c) + seq![c] + ws.last()
    }
}

/// Each piece is non-empty and holds no separator.
pub open spec fn clean_pieces(ws: Seq<Seq<char>>, kind: Sep) -> bool {
    forall|i: int| 0 <= i < ws.len() ==> ws[i].len() > 0 && forall|j: int| 0 <= j < ws[i].len() ==> !is_sep(kind, #[trigger] ws[i][j])
}

proof fn lemma_split_after_sep(x: Seq<char>, kind: Sep, c: char)
    requires
        is_sep(kind, c),
    ensures
        split_state(x.push(c), kind) == (pieces(x, kind), Seq::<char>::empty()),
{
    assert(x.push(c).drop_last() =~= x);
}

/// Splitting what `join` wrote gives back its pieces.
pub proof fn lemma_pieces_join(ws: Seq<Seq<char>>, kind: Sep, c: char)
    requires
        is_sep(kind, c),
        clean_pieces(ws, kind),
    ensures
        pieces(join(ws, c), kind) == ws,
    decreases ws.len(),
{
    if ws.len() == 0 {
        assert(pieces(join(ws, c), kind) =~= ws);
    } else {
        let last = ws.last();
        let (a, start) = if ws.len() == 1 {
            (Seq::<char>::empty(), 0int)
        } else {
            let pre = ws.drop_last();
            assert(clean_pieces(pre, kind)) by {
                assert forall|i: int| 0 <= i < pre.len() implies pre[i].len() > 0 && forall|j: int|
                    0 <= j < pre[i].len() ==> !is_sep(kind, #[trigger] pre[i][j]) by {
                    assert(pre[i] == ws[i]);
                }
            }
            lemma_pieces_join(pre, kind, c);
            let a = join(pre, c).push(c);
            lemma_split_after_sep(join(pre, c), kind, c);
            (a, a.len() as int)
        };
        let s = a + last;
        assert(join(ws, c) =~= s);
        assert(s.take(start) =~= a);
        assert forall|j: int| start <= j < s.len() implies !is_sep(kind, s[j]) by {
            assert(s[j] == ws[ws.len() - 1][j - start]);
        }
        lemma_split_state_cur(s, kind, start);
        assert(s.subrange(start, s.len() as int) =~= last);
        if ws.len() == 1 {
            assert(split_state(s.take(0), kind).0 =~= Seq::<Seq<char>>::empty());
            assert(pieces(s, kind) =~= ws);
        } else {
            assert(pieces(s, kind) =~= ws.drop_last().push(last));
            assert(ws.drop_last().push(last) =~= ws);
        }
    }
}

/// `join` writes no `d` where neither the pieces nor `c` hold one.
pub proof fn lemma_join_avoids(ws: Seq<Seq<char>>, c: char, d: char)
    requires
        c != d,
        forall|i: int, j: int| 0 <= i < ws.len() && 0 <= j < ws[i].len() ==> ws[i][j] != d,
    ensures
        forall|k: int| 0 <= k < join(ws, c).len() ==> join(ws, c)[k] != d,
        ws.len() > 0 && ws[0].len() > 0 ==> join(ws, c).len() > 0,
    decreases ws.len(),
{
    if ws.len() > 1 {
        let pre = ws.drop_last();
        assert forall|i: int, j: int| 0 <= i < pre.len() && 0 <= j < pre[i].len() implies pre[i][j] != d by {
            assert(pre[i] == ws[i]);
        }
        lemma_join_avoids(pre, c, d);
        let s = join(ws, c);
        assert forall|k: int| 0 <= k < s.len() implies s[k] != d by {
            let n = join(pre, c).len();
            if k < n {
            } else if k == n {
            } else {
                assert(s[k] == ws[ws.len() - 1][k - n - 1]);
            }
        }
        assert(pre[0] == ws[0]);
    }
}

/// A text without `=`.
pub open spec fn no_eq(k: Seq<char>) -> bool {
    forall|i: int| 0 <= i < k.len() ==> k[i] != '='
}

proof fn lemma_first_eq_none(k: Seq<char>)
    requires
        no_eq(k),
    ensures
        first_eq(k) == k.len(),
    decreases k.len(),
{
    if k.len() > 0 {
        lemma_first_eq_none(k.drop_last());
    }
}

proof fn lemma_first_eq_kept(x: Seq<char>, y: Seq<char>)
    requires
        first_eq(x) < x.len(),
    ensures
        first_eq(x + y) == first_eq(x),
    decreases y.len(),
{
    if y.len() > 0 {
        lemma_first_eq_kept(x, y.drop_last());
        assert((x + y).drop_last() =~= x + y.drop_last());
        lemma_first_eq_bound(x + y.drop_last());
    } else {
        assert(x + y =~= x);
    }
}

/// A key without `=`, written `key=value`, is cut back into key and value.
pub proof fn lemma_split_eq_pair(k: Seq<char>, v: Seq<char>)
    requires
        no_eq(k),
    ensures
        split_eq(k + "="@ + v) == Some((k, v)),
{
    reveal_strlit("=");
    let x = k + "="@;
    lemma_first_eq_none(k);
    assert(x.drop_last() =~= k);
    assert(first_eq(x) == k.len());
    lemma_first_eq_kept(x, v);
    assert((k + "="@ + v).take(k.len() as int) =~= k);
    assert((k + "="@ + v).skip(k.len() as int + 1) =~= v);
}

} // verus!
