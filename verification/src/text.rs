//! Reading strings character by character: the few operations on text that
//! the rest of the library needs, each with its meaning on `Seq<char>`.

use vstd::prelude::*;
use vstd::std_specs::iter::IteratorSpec;
use vstd::string::*;

verus! {

broadcast use vstd::string::group_string_axioms;

/// `s` is not empty and its last character is `c`.
pub open spec fn ends_in(s: Seq<char>, c: char) -> bool {
    s.len() > 0 && s.last() == c
}

/// `s` without the run of `c` at its end, however long that run is.
pub open spec fn without_trailing(s: Seq<char>, c: char) -> Seq<char>
    decreases s.len(),
{
    if ends_in(s, c) {
        without_trailing(s.drop_last(), c)
    } else {
        s
    }
}

/// The pieces of `s` between occurrences of `c`, read from the left: one more
/// piece than there are occurrences, empty pieces included.
pub open spec fn pieces(s: Seq<char>, c: char) -> Seq<Seq<char>>
    decreases s.len(),
{
    if s.len() == 0 {
        seq![Seq::<char>::empty()]
    } else {
        let before = pieces(s.drop_last(), c);
        if s.last() == c {
            before.push(Seq::<char>::empty())
        } else {
            before.update(before.len() - 1, before.last().push(s.last()))
        }
    }
}

/// The pieces joined again, with `c` between neighbours.
pub open spec fn joined(parts: Seq<Seq<char>>, c: char) -> Seq<char>
    decreases parts.len(),
{
    if parts.len() == 0 {
        Seq::<char>::empty()
    } else if parts.len() == 1 {
        parts[0]
    } else {
        joined(parts.drop_last(), c) + seq![c] + parts.last()
    }
}

/// What is left of `s` without the run of `c` at its end is the start of
/// `s`, does not end in `c`, and is followed in `s` by nothing but `c`.
pub proof fn lemma_without_trailing(s: Seq<char>, c: char)
    ensures
        ({
            let kept = without_trailing(s, c);
            &&& kept.len() <= s.len()
            &&& kept == s.take(kept.len() as int)
            &&& !ends_in(kept, c)
            &&& forall|i: int| kept.len() <= i < s.len() ==> s[i] == c
        }),
    decreases s.len(),
{
    if ends_in(s, c) {
        lemma_without_trailing(s.drop_last(), c);
        let kept = without_trailing(s, c);
        assert(kept == s.take(kept.len() as int));
        assert forall|i: int| kept.len() <= i < s.len() implies s[i] == c by {
            if i < s.len() - 1 {
                assert(s[i] == s.drop_last()[i]);
            }
        }
    } else {
        assert(s == s.take(s.len() as int));
    }
}

/// The pieces of `s` are at least one, none of them holds `c`, and joined
/// with `c` between them they are `s` again.
pub proof fn lemma_pieces(s: Seq<char>, c: char)
    ensures
        pieces(s, c).len() >= 1,
        forall|i: int| 0 <= i < pieces(s, c).len() ==> !(#[trigger] pieces(s, c)[i]).contains(c),
        joined(pieces(s, c), c) == s,
    decreases s.len(),
{
    let parts = pieces(s, c);
    if s.len() > 0 {
        let before = pieces(s.drop_last(), c);
        lemma_pieces(s.drop_last(), c);
        if s.last() == c {
            assert(parts.drop_last() == before);
            assert(joined(parts, c) == s.drop_last() + seq![c] + Seq::<char>::empty());
        } else {
            let grown = before.last().push(s.last());
            assert(!grown.contains(c)) by {
                if grown.contains(c) {
                    let i = choose|i: int| 0 <= i < grown.len() && grown[i] == c;
                    assert(before.last()[i] == c);
                }
            }
            if before.len() > 1 {
                assert(parts.drop_last() == before.drop_last());
                assert(joined(parts, c) == (joined(before.drop_last(), c) + seq![c]
                    + before.last()).push(s.last()));
            }
            assert(joined(parts, c) == s.drop_last().push(s.last()));
        }
        assert(s.drop_last().push(s.last()) == s);
    }
}

/// Only one start of `s` does not end in `c` and is followed in `s` by
/// nothing but `c`: what is left of `s` without the run of `c` at its end.
pub proof fn lemma_without_trailing_unique(s: Seq<char>, c: char, kept: Seq<char>)
    requires
        kept.len() <= s.len(),
        kept == s.take(kept.len() as int),
        !ends_in(kept, c),
        forall|i: int| kept.len() <= i < s.len() ==> s[i] == c,
    ensures
        kept == without_trailing(s, c),
{
    lemma_without_trailing(s, c);
    let other = without_trailing(s, c);
    if kept.len() < other.len() {
        assert(other.last() == s[other.len() - 1]);
    } else if other.len() < kept.len() {
        assert(kept.last() == s[kept.len() - 1]);
    }
}

/// Only one sequence of pieces without `c` gives `s` when it is joined with
/// `c`: the pieces of `s`.
pub proof fn lemma_pieces_unique(s: Seq<char>, c: char, parts: Seq<Seq<char>>)
    requires
        parts.len() >= 1,
        forall|i: int| 0 <= i < parts.len() ==> !(#[trigger] parts[i]).contains(c),
        joined(parts, c) == s,
    ensures
        parts == pieces(s, c),
    decreases s.len(),
{
    let n = parts.len() as int;
    if n > 1 {
        assert(s == joined(parts.drop_last(), c) + seq![c] + parts.last());
    }
    if s.len() == 0 {
        assert(n == 1);
        assert(parts[0] == Seq::<char>::empty());
        assert(parts == seq![Seq::<char>::empty()]);
    } else if parts.last().len() == 0 {
        assert(n > 1);
        let shorter = parts.drop_last();
        assert(s.drop_last() == joined(shorter, c));
        assert forall|i: int| 0 <= i < shorter.len() implies !(#[trigger] shorter[i]).contains(
            c,
        ) by {
            assert(shorter[i] == parts[i]);
        }
        lemma_pieces_unique(s.drop_last(), c, shorter);
        assert(parts.last() == Seq::<char>::empty());
        assert(parts == shorter.push(Seq::<char>::empty()));
    } else {
        let cut = parts.last().drop_last();
        let shorter = parts.update(n - 1, cut);
        assert(parts.last().last() == s.last());
        assert(s.last() != c) by {
            assert(parts.last().contains(parts.last().last()));
        }
        assert forall|i: int| 0 <= i < shorter.len() implies !(#[trigger] shorter[i]).contains(
            c,
        ) by {
            if i == n - 1 {
                if cut.contains(c) {
                    let j = choose|j: int| 0 <= j < cut.len() && cut[j] == c;
                    assert(parts.last()[j] == c);
                }
            } else {
                assert(shorter[i] == parts[i]);
            }
        }
        if n > 1 {
            assert(shorter.drop_last() == parts.drop_last());
            assert(joined(shorter, c) == joined(parts.drop_last(), c) + seq![c] + cut);
        }
        assert(joined(shorter, c) == s.drop_last());
        lemma_pieces_unique(s.drop_last(), c, shorter);
        assert(parts == shorter.update(n - 1, shorter.last().push(s.last()))) by {
            assert(cut.push(s.last()) == parts.last());
        }
    }
}

/// The characters of `s`, in order.
pub fn chars_of(s: &str) -> (out: Vec<char>)
    ensures
        out@ == s@,
{
    let mut out: Vec<char> = Vec::new();
    let mut it = s.chars();
    loop
        invariant
            it.obeys_prophetic_iter_laws(),
            out@ + it.remaining() == s@,
            it.decrease() is Some,
        ensures
            out@ == s@,
        decreases it.decrease()->0,
    {
        let ghost before = it;
        match it.next() {
            Some(c) => {
                assert(before.remaining() == seq![c] + it.remaining());
                assert(out@.push(c) + it.remaining() == out@ + before.remaining());
                out.push(c);
            },
            None => {
                assert(out@ + before.remaining() == out@);
                break;
            },
        }
    }
    out
}

/// Whether the last character of `s` is `c`.
pub fn ends_with(s: &str, c: char) -> (b: bool)
    ensures
        b == ends_in(s@, c),
{
    let chars = chars_of(s);
    let n: usize = chars.len();
    n > 0 && chars[n - 1] == c
}

/// Whether `c` occurs in `s`.
pub fn contains(s: &str, c: char) -> (b: bool)
    ensures
        b == s@.contains(c),
{
    let chars = chars_of(s);
    let mut i: usize = 0;
    while i < chars.len()
        invariant
            i <= chars.len(),
            chars@ == s@,
            forall|j: int| 0 <= j < i ==> s@[j] != c,
        decreases chars.len() - i,
    {
        if chars[i] == c {
            return true;
        }
        i += 1;
    }
    false
}

/// `s` with every `c` at its end taken away.
pub fn trim_end_matches(s: &str, c: char) -> (out: String)
    ensures
        out@ == without_trailing(s@, c),
{
    let chars = chars_of(s);
    let mut end: usize = chars.len();
    assert(s@.take(end as int) == s@);
    while end > 0 && chars[end - 1] == c
        invariant
            end <= chars.len(),
            chars@ == s@,
            without_trailing(s@, c) == without_trailing(s@.take(end as int), c),
        decreases end,
    {
        assert(s@.take(end as int).drop_last() == s@.take(end - 1));
        end -= 1;
    }
    assert(s@.take(end as int) == s@.subrange(0, end as int));
    String::from_str(s.substring_char(0, end))
}

/// The pieces of `s` between occurrences of `c`, as `str::split` gives them.
pub fn split(s: &str, c: char) -> (out: Vec<String>)
    ensures
        out.deep_view() == pieces(s@, c),
{
    let chars = chars_of(s);
    let mut out: Vec<String> = Vec::new();
    let mut start: usize = 0;
    let mut i: usize = 0;
    assert(out.deep_view() == Seq::<Seq<char>>::empty());
    assert(s@.subrange(0, 0) == Seq::<char>::empty());
    assert(s@.take(0).len() == 0);
    while i < chars.len()
        invariant
            start <= i <= chars.len(),
            chars@ == s@,
            pieces(s@.take(i as int), c) == out.deep_view().push(
                s@.subrange(start as int, i as int),
            ),
        decreases chars.len() - i,
    {
        let ghost done = out.deep_view();
        let ghost open = s@.subrange(start as int, i as int);
        assert(s@.take(i + 1).drop_last() == s@.take(i as int));
        if chars[i] == c {
            out.push(String::from_str(s.substring_char(start, i)));
            start = i + 1;
            assert(out.deep_view() == done.push(open));
            assert(s@.subrange(start as int, i + 1) == Seq::<char>::empty());
        } else {
            assert(open.push(s@[i as int]) == s@.subrange(start as int, i + 1));
            assert(done.push(open).update(done.len() as int, open.push(s@[i as int]))
                == done.push(open.push(s@[i as int])));
        }
        i += 1;
    }
    assert(s@.take(i as int) == s@);
    out.push(String::from_str(s.substring_char(start, i)));
    assert(out.deep_view() == pieces(s@, c));
    out
}

} // verus!
