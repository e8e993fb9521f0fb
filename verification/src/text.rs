use vstd::prelude::*;

verus! {

/// The pieces of `s` between occurrences of `sep`, in order: `s` split at
/// every `sep`, with the separators left out. A string with no separator is
/// one piece, and the empty string is one empty piece.
pub open spec fn split_at_char(s: Seq<char>, sep: char) -> Seq<Seq<char>>
    decreases s.len(),
{
    if s.len() == 0 {
        seq![Seq::<char>::empty()]
    } else {
        let pieces = split_at_char(s.drop_last(), sep);
        if s.last() == sep {
            pieces.push(Seq::<char>::empty())
        } else {
            pieces.update(pieces.len() - 1, pieces.last().push(s.last()))
        }
    }
}

/// The pieces joined back together with `sep` between consecutive ones.
pub open spec fn join_with_char(pieces: Seq<Seq<char>>, sep: char) -> Seq<char>
    decreases pieces.len(),
{
    if pieces.len() == 0 {
        Seq::<char>::empty()
    } else if pieces.len() == 1 {
        pieces[0]
    } else {
        join_with_char(pieces.drop_last(), sep).push(sep) + pieces.last()
    }
}

/// Splitting never yields zero pieces.
pub proof fn lemma_split_nonempty(s: Seq<char>, sep: char)
    ensures
        split_at_char(s, sep).len() >= 1,
    decreases s.len(),
{
    if s.len() > 0 {
        lemma_split_nonempty(s.drop_last(), sep);
    }
}

/// A string without the separator is one piece.
pub proof fn lemma_split_without_sep(s: Seq<char>, sep: char)
    requires
        forall|i: int| 0 <= i < s.len() ==> s[i] != sep,
    ensures
        split_at_char(s, sep) == seq![s],
    decreases s.len(),
{
    if s.len() > 0 {
        assert forall|i: int| 0 <= i < s.drop_last().len() implies s.drop_last()[i] != sep by {
            assert(s.drop_last()[i] == s[i]);
        }
        lemma_split_without_sep(s.drop_last(), sep);
        assert(s.last() == s[s.len() - 1]);
        assert(s.drop_last().push(s.last()) == s);
        assert(split_at_char(s, sep) == seq![s.drop_last()].update(0, s.drop_last().push(s.last())));
        assert(seq![s.drop_last()].update(0, s.drop_last().push(s.last())) == seq![s]);
    } else {
        assert(split_at_char(s, sep) == seq![Seq::<char>::empty()]);
        assert(s == Seq::<char>::empty());
    }
}

/// A separator followed by a piece without one adds that piece to the
/// pieces of what comes before.
pub proof fn lemma_split_append_piece(s: Seq<char>, sep: char, t: Seq<char>)
    requires
        forall|i: int| 0 <= i < t.len() ==> t[i] != sep,
    ensures
        split_at_char(s.push(sep) + t, sep) == split_at_char(s, sep).push(t),
    decreases t.len(),
{
    lemma_split_nonempty(s, sep);
    if t.len() == 0 {
        assert(t == Seq::<char>::empty());
        assert(s.push(sep) + t == s.push(sep));
        assert(s.push(sep).drop_last() == s);
        assert(s.push(sep).last() == sep);
        assert(split_at_char(s.push(sep), sep) == split_at_char(s, sep).push(Seq::<char>::empty()));
    } else {
        assert forall|i: int| 0 <= i < t.drop_last().len() implies t.drop_last()[i] != sep by {
            assert(t.drop_last()[i] == t[i]);
        }
        lemma_split_append_piece(s, sep, t.drop_last());
        let whole = s.push(sep) + t;
        let prev = split_at_char(s, sep).push(t.drop_last());
        assert(whole.drop_last() == s.push(sep) + t.drop_last());
        assert(whole.last() == t.last());
        assert(t.last() == t[t.len() - 1]);
        assert(t.drop_last().push(t.last()) == t);
        assert(split_at_char(whole, sep) == prev.update(prev.len() - 1, prev.last().push(whole.last())));
        assert(prev.update(prev.len() - 1, t) == split_at_char(s, sep).push(t));
    }
}

/// Splitting loses nothing: no piece holds the separator, and joining the
/// pieces with the separator gives back the string.
pub proof fn lemma_split_join(s: Seq<char>, sep: char)
    ensures
        join_with_char(split_at_char(s, sep), sep) == s,
        forall|i: int, j: int|
            0 <= i < split_at_char(s, sep).len() && 0 <= j < split_at_char(s, sep)[i].len()
                ==> split_at_char(s, sep)[i][j] != sep,
    decreases s.len(),
{
    if s.len() > 0 {
        let prev = split_at_char(s.drop_last(), sep);
        lemma_split_join(s.drop_last(), sep);
        lemma_split_nonempty(s.drop_last(), sep);
        let cur = split_at_char(s, sep);
        if s.last() == sep {
            assert(cur.drop_last() == prev);
            assert(join_with_char(cur, sep) == s.drop_last().push(sep));
        } else {
            if prev.len() == 1 {
                assert(join_with_char(cur, sep) == s);
            } else {
                assert(cur.drop_last() == prev.drop_last());
                assert(join_with_char(cur, sep) == join_with_char(prev.drop_last(), sep).push(sep)
                    + prev.last().push(s.last()));
                assert(join_with_char(prev, sep) == join_with_char(prev.drop_last(), sep).push(sep)
                    + prev.last());
            }
        }
        assert(s.drop_last().push(s.last()) == s);
    } else {
        assert(join_with_char(split_at_char(s, sep), sep) == s);
    }
}

/// The characters of `s`.
pub fn chars_of(s: &str) -> (res: Vec<char>)
    ensures
        res@ == s@,
{
    let mut res: Vec<char> = Vec::new();
    for c in it: s.chars()
        invariant
            it.seq() == s@,
            res@ == it.seq().take(it.index() as int),
    {
        res.push(c);
    }
    res
}

/// The views of a list of string slices.
pub open spec fn views_of(pieces: Seq<&str>) -> Seq<Seq<char>> {
    pieces.map_values(|p: &str| p@)
}

/// Splits `s` at every occurrence of `sep`, as `str::split` with a `char`
/// pattern does.
pub fn split_str(s: &str, sep: char) -> (res: Vec<&str>)
    ensures
        views_of(res@) == split_at_char(s@, sep),
{
    let chars = chars_of(s);
    let n = chars.len();
    let mut pieces: Vec<&str> = Vec::new();
    let mut start: usize = 0;
    let mut i: usize = 0;
    assert(s@.take(0) == Seq::<char>::empty());
    while i < n
        invariant
            n == chars@.len(),
            chars@ == s@,
            start <= i <= n,
            split_at_char(s@.take(i as int), sep) == views_of(pieces@).push(
                s@.subrange(start as int, i as int),
            ),
        decreases n - i,
    {
        let ghost prev = pieces@;
        assert(s@.take(i + 1).drop_last() == s@.take(i as int));
        assert(s@.take(i + 1).last() == chars@[i as int]);
        if chars[i] == sep {
            let piece = s.substring_char(start, i);
            pieces.push(piece);
            assert(views_of(pieces@) == views_of(prev).push(piece@));
            assert(s@.subrange(i + 1, i + 1) == Seq::<char>::empty());
            start = i + 1;
        } else {
            assert(s@.subrange(start as int, i as int).push(chars@[i as int]) == s@.subrange(
                start as int,
                i + 1,
            ));
        }
        i = i + 1;
    }
    let ghost prev = pieces@;
    let last = s.substring_char(start, n);
    pieces.push(last);
    assert(views_of(pieces@) == views_of(prev).push(last@));
    assert(s@.take(n as int) == s@);
    pieces
}

/// Whether two strings hold the same characters.
pub fn str_eq(a: &str, b: &str) -> (res: bool)
    ensures
        res == (a@ == b@),
{
    let x = chars_of(a);
    let y = chars_of(b);
    if x.len() != y.len() {
        return false;
    }
    let mut i: usize = 0;
    while i < x.len()
        invariant
            x@ == a@,
            y@ == b@,
            x@.len() == y@.len(),
            i <= x@.len(),
            forall|j: int| 0 <= j < i ==> x@[j] == y@[j],
        decreases x@.len() - i,
    {
        if x[i] != y[i] {
            return false;
        }
        i = i + 1;
    }
    assert(x@ == y@);
    true
}

} // verus!
