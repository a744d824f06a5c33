//! Splitting and trimming of text, as the configuration files need it.
//!
//! A text is handled as its characters; a part of it is named by the
//! positions where it starts and ends.

use vstd::prelude::*;

verus! {

/// Equality of string slices, `<str as PartialEq>::eq` of the standard
/// library: two slices are equal exactly when they hold the same
/// characters. Believed, not proved; the verifier's own library states
/// the same of owned strings only.
pub assume_specification[ <str as PartialEq>::eq ](a: &str, b: &str) -> (r: bool)
    ensures
        r == (a@ == b@),
;

/// The character is white space: a control character from tab to carriage
/// return, a space, next line, or one of the spaces beyond ASCII.
pub open spec fn is_space(c: char) -> bool {
    let n = c as u32;
    ||| 0x09 <= n <= 0x0d
    ||| n == 0x20
    ||| n == 0x85
    ||| n == 0xa0
    ||| n == 0x1680
    ||| 0x2000 <= n <= 0x200a
    ||| n == 0x2028
    ||| n == 0x2029
    ||| n == 0x202f
    ||| n == 0x205f
    ||| n == 0x3000
}

/// The pieces of `s` between the occurrences of `sep`, in order. There is
/// one piece more than there are separators, and a piece may be empty.
pub open spec fn split(s: Seq<char>, sep: char) -> Seq<Seq<char>>
    decreases s.len(),
{
    if s.len() == 0 {
        seq![Seq::empty()]
    } else {
        let before = split(s.drop_last(), sep);
        if s.last() == sep {
            before.push(Seq::empty())
        } else {
            before.update(before.len() - 1, before.last().push(s.last()))
        }
    }
}

/// `s` without the white space at its start and at its end.
pub open spec fn trimmed(s: Seq<char>) -> Seq<char>
    decreases s.len(),
{
    if s.len() > 0 && is_space(s.first()) {
        trimmed(s.drop_first())
    } else if s.len() > 0 && is_space(s.last()) {
        trimmed(s.drop_last())
    } else {
        s
    }
}

/// The pieces of `pieces` joined by `sep`.
pub open spec fn joined(pieces: Seq<Seq<char>>, sep: Seq<char>) -> Seq<char>
    decreases pieces.len(),
{
    if pieces.len() == 0 {
        Seq::empty()
    } else if pieces.len() == 1 {
        pieces[0]
    } else {
        joined(pieces.drop_last(), sep) + sep + pieces.last()
    }
}

/// Splitting loses nothing: there is always a piece, no piece holds the
/// separator, and the pieces joined by the separator are the text.
pub proof fn lemma_split_sound(s: Seq<char>, sep: char)
    ensures
        split(s, sep).len() >= 1,
        forall|i: int, j: int|
            0 <= i < split(s, sep).len() && 0 <= j < split(s, sep)[i].len() ==> split(
                s,
                sep,
            )[i][j] != sep,
        joined(split(s, sep), seq![sep]) == s,
    decreases s.len(),
{
    if s.len() == 0 {
        assert(joined(split(s, sep), seq![sep]) =~= s);
    } else {
        let rest = s.drop_last();
        let before = split(rest, sep);
        lemma_split_sound(rest, sep);
        let now = split(s, sep);
        if s.last() == sep {
            assert(now.drop_last() =~= before);
            assert(joined(now, seq![sep]) =~= s);
        } else {
            let grown = before.last().push(s.last());
            if before.len() == 1 {
                assert(joined(now, seq![sep]) =~= s);
            } else {
                let head = joined(before.drop_last(), seq![sep]) + seq![sep];
                assert(now.drop_last() =~= before.drop_last());
                assert(now.last() == grown);
                assert(rest == head + before.last());
                assert(joined(now, seq![sep]) == head + grown);
                assert(head + grown =~= (head + before.last()).push(s.last()));
                assert(s =~= rest.push(s.last()));
            }
        }
    }
}

/// Trimming takes off white space and nothing else: what is left is the
/// part of the text between two positions, everything outside that part
/// is white space, and the part neither starts nor ends with white space.
/// The two positions are returned.
pub proof fn lemma_trimmed_sound(s: Seq<char>) -> (r: (int, int))
    ensures
        0 <= r.0 <= r.1 <= s.len(),
        trimmed(s) == s.subrange(r.0, r.1),
        forall|i: int| 0 <= i < r.0 ==> is_space(s[i]),
        forall|i: int| r.1 <= i < s.len() ==> is_space(s[i]),
        r.0 < r.1 ==> !is_space(s[r.0]) && !is_space(s[r.1 - 1]),
    decreases s.len(),
{
    if s.len() > 0 && is_space(s.first()) {
        let inner = lemma_trimmed_sound(s.drop_first());
        let r = (inner.0 + 1, inner.1 + 1);
        assert(s.drop_first().subrange(inner.0, inner.1) == s.subrange(r.0, r.1));
        assert forall|i: int| 0 <= i < r.0 implies is_space(s[i]) by {
            if i > 0 {
                assert(s[i] == s.drop_first()[i - 1]);
            }
        }
        assert forall|i: int| r.1 <= i < s.len() implies is_space(s[i]) by {
            assert(s[i] == s.drop_first()[i - 1]);
        }
        r
    } else if s.len() > 0 && is_space(s.last()) {
        let inner = lemma_trimmed_sound(s.drop_last());
        assert(s.drop_last().subrange(inner.0, inner.1) == s.subrange(inner.0, inner.1));
        assert forall|i: int| inner.1 <= i < s.len() implies is_space(s[i]) by {
            if i < s.len() - 1 {
                assert(s[i] == s.drop_last()[i]);
            }
        }
        inner
    } else {
        assert(s.subrange(0, s.len() as int) == s);
        (0, s.len() as int)
    }
}

/// The characters of a string slice, in order.
pub fn chars_of(s: &str) -> (v: Vec<char>)
    ensures
        v@ == s@,
{
    let mut v: Vec<char> = Vec::new();
    for c in it: s.chars()
        invariant
            v@ == it.seq().take(it.index() as int),
            it.seq() == s@,
    {
        v.push(c);
    }
    v
}

/// Tells whether the character is white space.
pub fn char_is_space(c: char) -> (r: bool)
    ensures
        r == is_space(c),
{
    let n: u32 = c as u32;
    (0x09 <= n && n <= 0x0d) || n == 0x20 || n == 0x85 || n == 0xa0 || n == 0x1680 || (0x2000 <= n
        && n <= 0x200a) || n == 0x2028 || n == 0x2029 || n == 0x202f || n == 0x205f || n == 0x3000
}

/// The pieces of the part `from..to` of `s` between the occurrences of
/// `sep`, each as the positions where it starts and ends.
pub fn pieces(s: &Vec<char>, from: usize, to: usize, sep: char) -> (out: Vec<(usize, usize)>)
    requires
        from <= to <= s@.len(),
    ensures
        out@.len() == split(s@.subrange(from as int, to as int), sep).len(),
        forall|k: int|
            0 <= k < out@.len() ==> from <= (#[trigger] out@[k]).0 <= out@[k].1 <= to
                && s@.subrange(out@[k].0 as int, out@[k].1 as int) == split(
                s@.subrange(from as int, to as int),
                sep,
            )[k],
{
    let mut out: Vec<(usize, usize)> = Vec::new();
    let mut start: usize = from;
    let mut i: usize = from;
    while i < to
        invariant
            from <= start <= i <= to <= s@.len(),
            out@.len() + 1 == split(s@.subrange(from as int, i as int), sep).len(),
            s@.subrange(start as int, i as int) == split(
                s@.subrange(from as int, i as int),
                sep,
            ).last(),
            forall|k: int|
                0 <= k < out@.len() ==> from <= (#[trigger] out@[k]).0 <= out@[k].1 <= to
                    && s@.subrange(out@[k].0 as int, out@[k].1 as int) == split(
                    s@.subrange(from as int, i as int),
                    sep,
                )[k],
        decreases to - i,
    {
        let ghost seen = s@.subrange(from as int, i as int);
        let ghost more = s@.subrange(from as int, i + 1);
        assert(more.drop_last() == seen);
        assert(more.last() == s@[i as int]);
        if s[i] == sep {
            out.push((start, i));
            start = i + 1;
            assert(s@.subrange(start as int, i + 1) == Seq::<char>::empty());
        } else {
            assert(s@.subrange(start as int, i + 1) == s@.subrange(start as int, i as int).push(
                s@[i as int],
            ));
        }
        i += 1;
    }
    out.push((start, to));
    out
}

/// The part `from..to` of `s` without the white space at its start and
/// at its end, as the positions where it starts and ends.
pub fn trim(s: &Vec<char>, from: usize, to: usize) -> (r: (usize, usize))
    requires
        from <= to <= s@.len(),
    ensures
        from <= r.0 <= r.1 <= to,
        s@.subrange(r.0 as int, r.1 as int) == trimmed(s@.subrange(from as int, to as int)),
{
    let mut a: usize = from;
    while a < to && char_is_space(s[a])
        invariant
            from <= a <= to <= s@.len(),
            trimmed(s@.subrange(a as int, to as int)) == trimmed(
                s@.subrange(from as int, to as int),
            ),
        decreases to - a,
    {
        assert(s@.subrange(a as int, to as int).drop_first() == s@.subrange(a + 1, to as int));
        a += 1;
    }
    let mut b: usize = to;
    while a < b && char_is_space(s[b - 1])
        invariant
            a <= b <= to <= s@.len(),
            a < to ==> !is_space(s@[a as int]),
            trimmed(s@.subrange(a as int, b as int)) == trimmed(
                s@.subrange(from as int, to as int),
            ),
        decreases b - a,
    {
        assert(s@.subrange(a as int, b as int).drop_last() == s@.subrange(a as int, b - 1));
        b -= 1;
    }
    (a, b)
}

} // verus!
