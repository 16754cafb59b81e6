//! Character-level text utilities: splitting a line into cells at a
//! delimiter, joining fragments with a separator, and appending characters
//! to a `String`.

use vstd::prelude::*;

verus! {

/// The cells obtained by cutting `s` at every occurrence of `sep`.
///
/// Mirrors the behaviour of splitting a string on a single-character
/// pattern: an empty string yields one empty cell, a delimiter at either
/// end yields an empty cell on that side, and `n` delimiters always yield
/// `n + 1` cells.
pub open spec fn split_on(s: Seq<char>, sep: char) -> Seq<Seq<char>>
    decreases s.len(),
{
    if s.len() == 0 {
        seq![Seq::<char>::empty()]
    } else if s[0] == sep {
        seq![Seq::<char>::empty()] + split_on(s.drop_first(), sep)
    } else {
        let rest = split_on(s.drop_first(), sep);
        seq![seq![s[0]] + rest[0]] + rest.drop_first()
    }
}

pub proof fn lemma_split_on_len(s: Seq<char>, sep: char)
    ensures
        split_on(s, sep).len() >= 1,
    decreases s.len(),
{
    if s.len() == 0 {
    } else {
        lemma_split_on_len(s.drop_first(), sep);
    }
}

/// Extending the input by one character extends the last cell, or opens a
/// new empty cell when the character is the delimiter.
pub proof fn lemma_split_on_push(s: Seq<char>, sep: char, c: char)
    ensures
        c == sep ==> split_on(s.push(c), sep) == split_on(s, sep).push(Seq::<char>::empty()),
        c != sep ==> split_on(s.push(c), sep) == split_on(s, sep).drop_last().push(
            split_on(s, sep).last().push(c),
        ),
    decreases s.len(),
{
    lemma_split_on_len(s, sep);
    if s.len() == 0 {
        assert(split_on(s, sep) == seq![Seq::<char>::empty()]);
        assert(s.push(c).drop_first() =~= s);
        assert(s.push(c)[0] == c);
        if c == sep {
            assert(split_on(s.push(c), sep) == seq![Seq::<char>::empty()] + split_on(
                s.push(c).drop_first(),
                sep,
            ));
            assert(split_on(s.push(c), sep) =~~= split_on(s, sep).push(Seq::<char>::empty()));
        } else {
            assert(split_on(s.push(c), sep) == seq![
                seq![s.push(c)[0]] + split_on(s.push(c).drop_first(), sep)[0],
            ] + split_on(s.push(c).drop_first(), sep).drop_first());
            assert(split_on(s.push(c), sep) =~~= seq![seq![c]]);
            assert(split_on(s, sep).drop_last().push(split_on(s, sep).last().push(c)) =~~= seq![
                seq![c],
            ]);
        }
    } else {
        let t = s.drop_first();
        lemma_split_on_len(t, sep);
        lemma_split_on_push(t, sep, c);
        assert(s.push(c)[0] == s[0]);
        assert(s.push(c).drop_first() =~= t.push(c));
        let r = split_on(t, sep);
        let rp = split_on(t.push(c), sep);
        if s[0] == sep {
            if c == sep {
                assert(split_on(s.push(c), sep) =~~= split_on(s, sep).push(Seq::<char>::empty()));
            } else {
                assert(split_on(s, sep).last() == r.last());
                assert(split_on(s.push(c), sep) =~~= split_on(s, sep).drop_last().push(
                    split_on(s, sep).last().push(c),
                ));
            }
        } else {
            if c == sep {
                assert(rp[0] == r[0]);
                assert(split_on(s.push(c), sep) =~~= split_on(s, sep).push(Seq::<char>::empty()));
            } else {
                if r.len() == 1 {
                    assert(rp[0] == r[0].push(c));
                    assert((seq![s[0]] + r[0]).push(c) =~= seq![s[0]] + r[0].push(c));
                    assert(split_on(s, sep).last() == seq![s[0]] + r[0]);
                    assert(split_on(s.push(c), sep) =~~= split_on(s, sep).drop_last().push(
                        split_on(s, sep).last().push(c),
                    ));
                } else {
                    assert(rp[0] == r.drop_last()[0]);
                    assert(rp[0] == r[0]);
                    assert(split_on(s, sep).last() == r.last());
                    assert(split_on(s.push(c), sep) =~~= split_on(s, sep).drop_last().push(
                        split_on(s, sep).last().push(c),
                    ));
                }
            }
        }
    }
}

/// The fragments of `parts` joined with `sep` between consecutive fragments.
pub open spec fn join_with(parts: Seq<Seq<char>>, sep: Seq<char>) -> Seq<char>
    decreases parts.len(),
{
    if parts.len() == 0 {
        Seq::empty()
    } else if parts.len() == 1 {
        parts[0]
    } else {
        parts[0] + sep + join_with(parts.drop_first(), sep)
    }
}

pub proof fn lemma_join_with_push(parts: Seq<Seq<char>>, sep: Seq<char>, x: Seq<char>)
    ensures
        parts.len() == 0 ==> join_with(parts.push(x), sep) == x,
        parts.len() > 0 ==> join_with(parts.push(x), sep) == join_with(parts, sep) + sep + x,
    decreases parts.len(),
{
    if parts.len() == 0 {
        assert(parts.push(x)[0] == x);
    } else if parts.len() == 1 {
        assert(parts.push(x).drop_first() =~= seq![x]);
        assert(join_with(parts.push(x), sep) == parts[0] + sep + join_with(seq![x], sep));
    } else {
        lemma_join_with_push(parts.drop_first(), sep, x);
        assert(parts.push(x)[0] == parts[0]);
        assert(parts.push(x).drop_first() =~= parts.drop_first().push(x));
        assert(join_with(parts.push(x), sep) =~= join_with(parts, sep) + sep + x);
    }
}

/// All fragments of `parts` concatenated in order, with nothing between them.
pub open spec fn concat_all(parts: Seq<Seq<char>>) -> Seq<char>
    decreases parts.len(),
{
    if parts.len() == 0 {
        Seq::empty()
    } else {
        parts[0] + concat_all(parts.drop_first())
    }
}

pub proof fn lemma_concat_all_push(parts: Seq<Seq<char>>, x: Seq<char>)
    ensures
        concat_all(parts.push(x)) == concat_all(parts) + x,
    decreases parts.len(),
{
    if parts.len() == 0 {
        assert(parts.push(x)[0] == x);
        assert(parts.push(x).drop_first() =~= Seq::<Seq<char>>::empty());
        assert(concat_all(Seq::<Seq<char>>::empty()) == Seq::<char>::empty());
        assert(concat_all(parts.push(x)) =~= concat_all(parts) + x);
    } else {
        lemma_concat_all_push(parts.drop_first(), x);
        assert(parts.push(x)[0] == parts[0]);
        assert(parts.push(x).drop_first() =~= parts.drop_first().push(x));
        assert(concat_all(parts.push(x)) =~= concat_all(parts) + x);
    }
}

/// Joining the cells of `s` back together never shortens it, whatever
/// separator text is put between the cells: each delimiter of `s` is
/// replaced by at least one character.
pub proof fn lemma_join_split_len(s: Seq<char>, sep: char, sepseq: Seq<char>)
    requires
        sepseq.len() >= 1,
    ensures
        join_with(split_on(s, sep), sepseq).len() >= s.len(),
    decreases s.len(),
{
    lemma_split_on_len(s, sep);
    if s.len() > 0 {
        let t = s.drop_first();
        lemma_split_on_len(t, sep);
        lemma_join_split_len(t, sep, sepseq);
        let r = split_on(t, sep);
        if s[0] == sep {
            assert(split_on(s, sep).drop_first() =~= r);
            assert(join_with(split_on(s, sep), sepseq) == split_on(s, sep)[0] + sepseq
                + join_with(r, sepseq));
            assert(split_on(s, sep)[0].len() == 0);
        } else {
            assert(split_on(s, sep)[0] == seq![s[0]] + r[0]);
            if r.len() == 1 {
                assert(split_on(s, sep).len() == 1);
                assert(join_with(split_on(s, sep), sepseq) == split_on(s, sep)[0]);
                assert(join_with(r, sepseq) == r[0]);
            } else {
                assert(split_on(s, sep).drop_first() =~= r.drop_first());
                assert(join_with(split_on(s, sep), sepseq) == split_on(s, sep)[0] + sepseq
                    + join_with(r.drop_first(), sepseq));
                assert(join_with(r, sepseq) == r[0] + sepseq + join_with(r.drop_first(), sepseq));
            }
        }
    }
}

/// Relies on `String::push`: appends the given character to the end of the
/// string.
#[verifier::external_body]
pub(crate) fn push_char(s: &mut String, c: char)
    ensures
        final (s)@ == old(s)@.push(c),
{
    s.push(c);
}

/// Splits `s` into its cells at every occurrence of `sep`.
pub fn split_cells(s: &str, sep: char) -> (r: Vec<String>)
    ensures
        r@.len() == split_on(s@, sep).len(),
        forall|i: int| 0 <= i < r@.len() ==> r@[i]@ == split_on(s@, sep)[i],
{
    let n = s.unicode_len();
    let mut out: Vec<String> = Vec::new();
    let mut cur = String::new();
    let mut i: usize = 0;
    proof {
        assert(s@.subrange(0, 0) =~= Seq::<char>::empty());
        assert(split_on(Seq::<char>::empty(), sep) == seq![Seq::<char>::empty()]);
    }
    while i < n
        invariant
            n == s@.len(),
            i <= n,
            out@.len() + 1 == split_on(s@.subrange(0, i as int), sep).len(),
            forall|j: int|
                0 <= j < out@.len() ==> out@[j]@ == split_on(s@.subrange(0, i as int), sep)[j],
            cur@ == split_on(s@.subrange(0, i as int), sep).last(),
        decreases n - i,
    {
        let c = s.get_char(i);
        proof {
            assert(s@.subrange(0, i + 1 as int) =~= s@.subrange(0, i as int).push(s@[i as int]));
            lemma_split_on_len(s@.subrange(0, i as int), sep);
            lemma_split_on_push(s@.subrange(0, i as int), sep, s@[i as int]);
        }
        if c == sep {
            out.push(cur);
            cur = String::new();
        } else {
            push_char(&mut cur, c);
        }
        i = i + 1;
    }
    proof {
        assert(s@.subrange(0, n as int) =~= s@);
        lemma_split_on_len(s@, sep);
    }
    out.push(cur);
    out
}

/// `l` with one trailing carriage return removed, if present.
pub open spec fn strip_cr(l: Seq<char>) -> Seq<char> {
    if l.len() > 0 && l.last() == '\r' {
        l.drop_last()
    } else {
        l
    }
}

/// The lines of `s`: the text cut at every newline, with a carriage return
/// at the end of a line removed, and with no empty final line when the
/// text itself ends in a newline. This matches how line iteration behaves
/// on strings.
pub open spec fn spec_lines(s: Seq<char>) -> Seq<Seq<char>> {
    if s.len() == 0 {
        Seq::empty()
    } else {
        let raw = if s.last() == '\n' {
            split_on(s, '\n').drop_last()
        } else {
            split_on(s, '\n')
        };
        raw.map_values(|l: Seq<char>| strip_cr(l))
    }
}

/// Splits `s` into its lines.
pub fn split_lines(s: &str) -> (r: Vec<String>)
    ensures
        r@.len() == spec_lines(s@).len(),
        forall|i: int| 0 <= i < r@.len() ==> r@[i]@ == spec_lines(s@)[i],
{
    let n = s.unicode_len();
    if n == 0 {
        let r: Vec<String> = Vec::new();
        return r;
    }
    let mut parts = split_cells(s, '\n');
    proof {
        lemma_split_on_len(s@, '\n');
    }
    if s.get_char(n - 1) == '\n' {
        proof {
            // a trailing newline means the split has at least two cells
            assert(s@.subrange(0, n - 1 as int).push(s@[n - 1 as int]) =~= s@);
            lemma_split_on_push(s@.subrange(0, n - 1 as int), '\n', s@[n - 1 as int]);
            lemma_split_on_len(s@.subrange(0, n - 1 as int), '\n');
        }
        parts.pop();
    }
    let ghost raw = if s@.last() == '\n' {
        split_on(s@, '\n').drop_last()
    } else {
        split_on(s@, '\n')
    };
    assert(parts@.len() == raw.len());
    assert(forall|k: int| 0 <= k < raw.len() ==> parts@[k]@ == raw[k]);
    let end = parts.len();
    let mut j: usize = 0;
    while j < end
        invariant
            end == parts@.len(),
            parts@.len() == raw.len(),
            j <= end,
            forall|k: int| 0 <= k < j ==> parts@[k]@ == strip_cr(raw[k]),
            forall|k: int| j <= k < raw.len() ==> parts@[k]@ == raw[k],
        decreases end - j,
    {
        let m = parts[j].as_str().unicode_len();
        if m > 0 && parts[j].as_str().get_char(m - 1) == '\r' {
            let shorter = String::from_str(parts[j].as_str().substring_char(0, m - 1));
            proof {
                assert(raw[j as int].drop_last() =~= raw[j as int].subrange(
                    0,
                    raw[j as int].len() - 1,
                ));
            }
            parts[j] = shorter;
        }
        j = j + 1;
    }
    proof {
        assert(spec_lines(s@) == raw.map_values(|l: Seq<char>| strip_cr(l)));
    }
    parts
}

/// Whether the character `c` occurs anywhere in `s`.
pub fn contains_char(s: &str, c: char) -> (r: bool)
    ensures
        r == s@.contains(c),
{
    let n = s.unicode_len();
    let mut i: usize = 0;
    while i < n
        invariant
            n == s@.len(),
            i <= n,
            forall|j: int| 0 <= j < i ==> s@[j] != c,
        decreases n - i,
    {
        if s.get_char(i) == c {
            assert(s@[i as int] == c);
            return true;
        }
        i = i + 1;
    }
    false
}

} // verus!
