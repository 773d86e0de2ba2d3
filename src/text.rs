//! Splitting of text into pieces, fields and lines.
use vstd::prelude::*;

verus! {

/// What separates the pieces of a text.
#[derive(Clone, Copy, Debug, PartialEq, Eq, Structural)]
pub enum Delim {
    /// One given character.
    Char(char),
    /// Any Unicode whitespace character.
    Space,
}

/// The characters of Unicode's White_Space property.
pub open spec fn is_space(c: char) -> bool {
    ||| '\u{09}' <= c <= '\u{0d}'
    ||| c == ' '
    ||| c == '\u{85}'
    ||| c == '\u{a0}'
    ||| c == '\u{1680}'
    ||| '\u{2000}' <= c <= '\u{200a}'
    ||| c == '\u{2028}'
    ||| c == '\u{2029}'
    ||| c == '\u{202f}'
    ||| c == '\u{205f}'
    ||| c == '\u{3000}'
}

impl Delim {
    pub open spec fn spec_matches(self, c: char) -> bool {
        match self {
            Delim::Char(d) => c == d,
            Delim::Space => is_space(c),
        }
    }

    /// Whether `c` separates two pieces.
    pub fn matches(&self, c: char) -> (r: bool)
        ensures
            r == self.spec_matches(c),
    {
        match self {
            Delim::Char(d) => c == *d,
            Delim::Space => ('\u{09}' <= c && c <= '\u{0d}') || c == ' ' || c == '\u{85}'
                || c == '\u{a0}' || c == '\u{1680}' || ('\u{2000}' <= c && c <= '\u{200a}')
                || c == '\u{2028}' || c == '\u{2029}' || c == '\u{202f}' || c == '\u{205f}'
                || c == '\u{3000}',
        }
    }
}

/// The pieces of `s` between delimiters, empty ones included:
/// `n` delimiters give `n + 1` pieces.
pub open spec fn pieces(s: Seq<char>, d: Delim) -> Seq<Seq<char>>
    decreases s.len(),
{
    if s.len() == 0 {
        seq![Seq::empty()]
    } else {
        let prev = pieces(s.drop_last(), d);
        if d.spec_matches(s.last()) {
            prev.push(Seq::empty())
        } else {
            prev.update(prev.len() - 1, prev.last().push(s.last()))
        }
    }
}

/// The non-empty members of `ps`, in order.
pub open spec fn non_empty(ps: Seq<Seq<char>>) -> Seq<Seq<char>>
    decreases ps.len(),
{
    if ps.len() == 0 {
        Seq::empty()
    } else {
        let prev = non_empty(ps.drop_last());
        if ps.last().len() > 0 {
            prev.push(ps.last())
        } else {
            prev
        }
    }
}

/// The maximal runs of non-whitespace characters of `s`.
pub open spec fn fields(s: Seq<char>) -> Seq<Seq<char>> {
    non_empty(pieces(s, Delim::Space))
}

/// The lines of `s`: the pieces between line feeds, where a final line feed
/// ends the last line rather than starting an empty one.
pub open spec fn lines(s: Seq<char>) -> Seq<Seq<char>> {
    let p = pieces(s, Delim::Char('\n'));
    if p.last().len() == 0 {
        p.drop_last()
    } else {
        p
    }
}

/// The character sequences that `v` holds.
pub open spec fn views(v: Seq<String>) -> Seq<Seq<char>> {
    v.map_values(|x: String| x@)
}

pub proof fn lemma_pieces_len(s: Seq<char>, d: Delim)
    ensures
        pieces(s, d).len() >= 1,
    decreases s.len(),
{
    if s.len() > 0 {
        lemma_pieces_len(s.drop_last(), d);
    }
}

/// Whether two strings hold the same characters.
pub fn same_chars(a: &str, b: &str) -> (r: bool)
    ensures
        r == (a@ == b@),
{
    let n = a.unicode_len();
    if n != b.unicode_len() {
        return false;
    }
    let mut i: usize = 0;
    while i < n
        invariant
            n == a@.len(),
            n == b@.len(),
            i <= n,
            forall|k: int| 0 <= k < i ==> a@[k] == b@[k],
        decreases n - i,
    {
        if a.get_char(i) != b.get_char(i) {
            return false;
        }
        i += 1;
    }
    assert(a@ =~= b@);
    true
}

/// Splits `s` at each delimiter, keeping empty pieces.
pub fn split_pieces(s: &str, d: Delim) -> (r: Vec<String>)
    ensures
        views(r@) == pieces(s@, d),
{
    let n = s.unicode_len();
    let mut out: Vec<String> = Vec::new();
    let mut start: usize = 0;
    let mut i: usize = 0;
    assert(views(out@) =~= Seq::<Seq<char>>::empty());
    assert(s@.subrange(0, 0) =~= Seq::<char>::empty());
    assert(views(out@).push(s@.subrange(0, 0)) =~= seq![Seq::<char>::empty()]);
    assert(s@.take(0) =~= Seq::<char>::empty());
    while i < n
        invariant
            n == s@.len(),
            start <= i <= n,
            pieces(s@.take(i as int), d) == views(out@).push(s@.subrange(start as int, i as int)),
        decreases n - i,
    {
        let c = s.get_char(i);
        let ghost prev = pieces(s@.take(i as int), d);
        assert(s@.take(i + 1).drop_last() =~= s@.take(i as int));
        assert(s@.take(i + 1).last() == c);
        if d.matches(c) {
            let piece = s.substring_char(start, i).to_owned();
            assert(pieces(s@.take(i + 1), d) == prev.push(Seq::empty()));
            assert(views(out@.push(piece)) =~= views(out@).push(piece@));
            out.push(piece);
            start = i + 1;
            assert(s@.subrange(start as int, i + 1) =~= Seq::<char>::empty());
            assert(pieces(s@.take(i + 1), d) =~= views(out@).push(s@.subrange(start as int, i + 1)));
        } else {
            assert(s@.subrange(start as int, i + 1) =~= s@.subrange(start as int, i as int).push(c));
            assert(pieces(s@.take(i + 1), d) =~= views(out@).push(s@.subrange(start as int, i + 1)));
        }
        i += 1;
    }
    let last = s.substring_char(start, n).to_owned();
    assert(views(out@.push(last)) =~= views(out@).push(last@));
    assert(s@.take(n as int) =~= s@);
    out.push(last);
    out
}

/// The maximal runs of non-whitespace characters of `s`.
pub fn split_fields(s: &str) -> (r: Vec<String>)
    ensures
        views(r@) == fields(s@),
{
    let p = split_pieces(s, Delim::Space);
    let ghost ps = views(p@);
    let mut out: Vec<String> = Vec::new();
    let mut k: usize = 0;
    assert(ps.take(0) =~= Seq::<Seq<char>>::empty());
    assert(views(out@) =~= Seq::<Seq<char>>::empty());
    while k < p.len()
        invariant
            ps == views(p@),
            k <= p.len(),
            views(out@) == non_empty(ps.take(k as int)),
        decreases p.len() - k,
    {
        assert(ps.take(k + 1).drop_last() =~= ps.take(k as int));
        assert(ps.take(k + 1).last() == p@[k as int]@);
        if !p[k].as_str().is_empty() {
            let f = p[k].clone();
            assert(views(out@.push(f)) =~= views(out@).push(f@));
            out.push(f);
        }
        k += 1;
    }
    assert(ps.take(p.len() as int) =~= ps);
    out
}

/// The lines of `s`, without their line feeds.
pub fn split_lines(s: &str) -> (r: Vec<String>)
    ensures
        views(r@) == lines(s@),
{
    let mut p = split_pieces(s, Delim::Char('\n'));
    proof {
        lemma_pieces_len(s@, Delim::Char('\n'));
    }
    let n = p.len();
    if p[n - 1].as_str().is_empty() {
        let ghost before = p@;
        p.pop();
        assert(views(p@) =~= views(before).drop_last());
    }
    p
}

} // verus!
