//! Sequences of characters: joining segments with a separator, splitting at a
//! separator and locating the last occurrence of a character.

use vstd::prelude::*;
use vstd::std_specs::iter::IteratorSpec;
use vstd::string::*;

verus! {

/// The segments of `parts` written one after another with `sep` between
/// neighbours. No segment gives the empty text.
pub open spec fn join(parts: Seq<Seq<char>>, sep: Seq<char>) -> Seq<char>
    decreases parts.len(),
{
    if parts.len() == 0 {
        Seq::empty()
    } else if parts.len() == 1 {
        parts[0]
    } else {
        join(parts.drop_last(), sep) + sep + parts.last()
    }
}

/// Joins the first `count` strings of `parts` with `sep` between neighbours.
pub fn join_prefix(parts: &Vec<String>, count: usize, sep: &str) -> (out: String)
    requires
        count <= parts.len(),
    ensures
        out@ == join(parts.deep_view().take(count as int), sep@),
{
    let mut out = String::new();
    let mut i: usize = 0;
    while i < count
        invariant
            i <= count <= parts.len(),
            out@ == join(parts.deep_view().take(i as int), sep@),
        decreases count - i,
    {
        proof {
            let before = parts.deep_view().take(i as int);
            let after = parts.deep_view().take(i + 1);
            assert(after.drop_last() =~= before);
            assert(after.last() == parts[i as int]@);
        }
        if i > 0 {
            out.append(sep);
        }
        out.append(parts[i].as_str());
        i = i + 1;
    }
    out
}


/// Copies the strings of `parts` from place `from` on.
pub fn copy_from(parts: &Vec<String>, from: usize) -> (out: Vec<String>)
    requires
        from <= parts.len(),
    ensures
        out.deep_view() == parts.deep_view().skip(from as int),
{
    let mut out: Vec<String> = Vec::new();
    let mut i: usize = from;
    while i < parts.len()
        invariant
            from <= i <= parts.len(),
            out.deep_view() =~= parts.deep_view().subrange(from as int, i as int),
        decreases parts.len() - i,
    {
        let ghost before = out.deep_view();
        out.push(parts[i].clone());
        assert(out.deep_view() =~= before.push(parts[i as int]@));
        i = i + 1;
    }
    out
}

/// The text cut at each occurrence of `sep`: the pieces between separators,
/// in order. A text without `sep` is one piece, an empty text one empty piece.
pub open spec fn split(s: Seq<char>, sep: char) -> Seq<Seq<char>>
    decreases s.len(),
{
    if s.len() == 0 {
        seq![Seq::empty()]
    } else if s.last() == sep {
        split(s.drop_last(), sep).push(Seq::empty())
    } else {
        let init = split(s.drop_last(), sep);
        init.drop_last().push(init.last().push(s.last()))
    }
}

/// Cuts `s` at each occurrence of `sep`.
pub fn split_at_char(s: &str, sep: char) -> (pieces: Vec<String>)
    ensures
        pieces.deep_view() == split(s@, sep),
{
    let total = s.unicode_len();
    let mut pieces: Vec<String> = Vec::new();
    let mut start: usize = 0;
    let mut i: usize = 0;
    proof {
        assert(s@.take(0) =~= Seq::<char>::empty());
        assert(pieces.deep_view().push(s@.subrange(0, 0)) =~= seq![Seq::<char>::empty()]);
    }
    for c in it: s.chars()
        invariant
            i == it.index(),
            it.seq() == s@,
            start <= i <= total,
            total == s@.len(),
            split(s@.take(i as int), sep) == pieces.deep_view().push(
                s@.subrange(start as int, i as int),
            ),
    {
        let ghost done = pieces.deep_view();
        let ghost current = s@.subrange(start as int, i as int);
        proof {
            let before = s@.take(i as int);
            let after = s@.take(i + 1);
            assert(after.drop_last() =~= before);
            assert(after.last() == c);
            assert(done.push(current).drop_last() =~= done);
            assert(done.push(current).last() == current);
        }
        if c == sep {
            pieces.push(s.substring_char(start, i).to_owned());
            start = i + 1;
            proof {
                assert(pieces.deep_view() =~= done.push(current));
                assert(s@.subrange(i + 1, i + 1) =~= Seq::<char>::empty());
            }
        } else {
            proof {
                assert(current.push(c) =~= s@.subrange(start as int, i + 1));
            }
        }
        i = i + 1;
    }
    let ghost done = pieces.deep_view();
    pieces.push(s.substring_char(start, total).to_owned());
    proof {
        assert(s@.take(total as int) =~= s@);
        assert(pieces.deep_view() =~= done.push(s@.subrange(start as int, total as int)));
    }
    pieces
}


/// The place of the last `c` in `s`, if `s` holds one.
pub open spec fn last_position(s: Seq<char>, c: char) -> Option<int>
    decreases s.len(),
{
    if s.len() == 0 {
        None
    } else if s.last() == c {
        Some(s.len() - 1)
    } else {
        last_position(s.drop_last(), c)
    }
}

/// What `last_position` finds is an occurrence with none after it, and it
/// finds nothing only where there is none.
pub proof fn lemma_last_position(s: Seq<char>, c: char)
    ensures
        match last_position(s, c) {
            Some(i) => 0 <= i < s.len() && s[i] == c && forall|j: int|
                i < j < s.len() ==> s[j] != c,
            None => !s.contains(c),
        },
    decreases s.len(),
{
    if s.len() > 0 && s.last() != c {
        let init = s.drop_last();
        lemma_last_position(init, c);
        match last_position(init, c) {
            Some(i) => {
                assert(s[i] == init[i]);
                assert forall|j: int| i < j < s.len() implies s[j] != c by {
                    if j < init.len() {
                        assert(s[j] == init[j]);
                    }
                }
            },
            None => {
                if s.contains(c) {
                    let j = choose|j: int| 0 <= j < s.len() && s[j] == c;
                    assert(init[j] == c);
                    assert(init.contains(c));
                }
            },
        }
    }
}

/// Finds the last `c` in `s`, counted in characters.
pub fn find_last(s: &str, c: char) -> (found: Option<usize>)
    ensures
        match found {
            Some(i) => last_position(s@, c) == Some(i as int),
            None => last_position(s@, c) is None,
        },
{
    let total = s.unicode_len();
    let mut found: Option<usize> = None;
    let mut i: usize = 0;
    proof {
        assert(s@.take(0) =~= Seq::<char>::empty());
    }
    for d in it: s.chars()
        invariant
            i == it.index(),
            it.seq() == s@,
            i <= total,
            total == s@.len(),
            match found {
                Some(k) => last_position(s@.take(i as int), c) == Some(k as int),
                None => last_position(s@.take(i as int), c) is None,
            },
    {
        proof {
            assert(s@.take(i + 1).drop_last() =~= s@.take(i as int));
            assert(s@.take(i + 1).last() == d);
        }
        if d == c {
            found = Some(i);
        }
        i = i + 1;
    }
    proof {
        assert(s@.take(total as int) =~= s@);
    }
    found
}

/// Whether two string slices hold the same characters.
pub fn same_text(a: &str, b: &str) -> (same: bool)
    ensures
        same == (a@ == b@),
{
    if a.unicode_len() != b.unicode_len() {
        return false;
    }
    let mut other = b.chars();
    for c in it: a.chars()
        invariant
            it.seq() == a@,
            a@.len() == b@.len(),
            other.obeys_prophetic_iter_laws(),
            other.remaining() == b@.skip(it.index()),
            a@.take(it.index()) == b@.take(it.index()),
    {
        let ghost k = it.index();
        let d = other.next();
        proof {
            assert(a@.take(k + 1).drop_last() =~= a@.take(k));
            assert(b@.take(k + 1).drop_last() =~= b@.take(k));
            assert(b@.skip(k).drop_first() =~= b@.skip(k + 1));
        }
        match d {
            Some(x) => {
                if x != c {
                    assert(a@[k] != b@[k]);
                    return false;
                }
                assert(a@.take(k + 1) =~= b@.take(k + 1));
            },
            None => {
                return false;
            },
        }
    }
    proof {
        assert(a@.take(a@.len() as int) =~= a@);
        assert(b@.take(b@.len() as int) =~= b@);
    }
    true
}


/// No piece of a split is missing: there is always at least one.
pub proof fn lemma_split_nonempty(s: Seq<char>, sep: char)
    ensures
        split(s, sep).len() >= 1,
    decreases s.len(),
{
    if s.len() > 0 {
        lemma_split_nonempty(s.drop_last(), sep);
    }
}

/// The pieces of a split do not hold the separator.
pub proof fn lemma_split_pieces_clean(s: Seq<char>, sep: char)
    ensures
        forall|i: int| 0 <= i < split(s, sep).len() ==> !(#[trigger] split(s, sep)[i]).contains(sep),
    decreases s.len(),
{
    if s.len() > 0 {
        let init = split(s.drop_last(), sep);
        lemma_split_nonempty(s.drop_last(), sep);
        lemma_split_pieces_clean(s.drop_last(), sep);
        if s.last() != sep {
            let grown = init.last().push(s.last());
            assert(!grown.contains(sep)) by {
                if grown.contains(sep) {
                    let j = choose|j: int| 0 <= j < grown.len() && grown[j] == sep;
                    assert(init.last()[j] == sep);
                    assert(init.last().contains(sep));
                    assert(init.last() == init[init.len() - 1]);
                }
            }
        }
    }
}

/// Joining the pieces of a split with the separator gives the text back.
pub proof fn lemma_join_split(s: Seq<char>, sep: char)
    ensures
        join(split(s, sep), seq![sep]) == s,
    decreases s.len(),
{
    if s.len() > 0 {
        let init = split(s.drop_last(), sep);
        lemma_split_nonempty(s.drop_last(), sep);
        lemma_join_split(s.drop_last(), sep);
        if s.last() == sep {
            let whole = init.push(Seq::empty());
            assert(whole.drop_last() =~= init);
            assert(join(whole, seq![sep]) =~= s);
        } else {
            let whole = init.drop_last().push(init.last().push(s.last()));
            assert(whole.drop_last() =~= init.drop_last());
            assert(join(whole, seq![sep]) =~= join(init, seq![sep]).push(s.last()));
            assert(s.drop_last().push(s.last()) =~= s);
        }
    }
}

/// Text appended without a separator in it lengthens the last piece.
pub proof fn lemma_split_append_clean(a: Seq<char>, b: Seq<char>, sep: char)
    requires
        !b.contains(sep),
    ensures
        split(a + b, sep) == split(a, sep).drop_last().push(split(a, sep).last() + b),
    decreases b.len(),
{
    lemma_split_nonempty(a, sep);
    let pieces = split(a, sep);
    if b.len() == 0 {
        assert(a + b =~= a);
        assert(pieces.last() + b =~= pieces.last());
        assert(pieces.drop_last().push(pieces.last()) =~= pieces);
    } else {
        let shorter = b.drop_last();
        assert(!shorter.contains(sep)) by {
            if shorter.contains(sep) {
                let j = choose|j: int| 0 <= j < shorter.len() && shorter[j] == sep;
                assert(b[j] == sep);
            }
        }
        assert(b.last() != sep) by {
            assert(b[b.len() - 1] == b.last());
        }
        lemma_split_append_clean(a, shorter, sep);
        assert((a + b).drop_last() =~= a + shorter);
        assert((a + b).last() == b.last());
        let before = pieces.drop_last().push(pieces.last() + shorter);
        assert(before.drop_last() =~= pieces.drop_last());
        assert((pieces.last() + shorter).push(b.last()) =~= pieces.last() + b);
    }
}

/// Splitting what was joined from pieces without the separator gives the
/// pieces back.
pub proof fn lemma_split_join(parts: Seq<Seq<char>>, sep: char)
    requires
        parts.len() >= 1,
        forall|i: int| 0 <= i < parts.len() ==> !(#[trigger] parts[i]).contains(sep),
    ensures
        split(join(parts, seq![sep]), sep) == parts,
    decreases parts.len(),
{
    let empty = Seq::<char>::empty();
    if parts.len() == 1 {
        lemma_split_append_clean(empty, parts[0], sep);
        assert(empty + parts[0] =~= parts[0]);
        assert(split(empty, sep) =~= seq![empty]);
        assert(seq![empty].drop_last().push(seq![empty].last() + parts[0]) =~= parts);
    } else {
        let init = parts.drop_last();
        assert forall|i: int| 0 <= i < init.len() implies !(#[trigger] init[i]).contains(sep) by {
            assert(init[i] == parts[i]);
        }
        lemma_split_join(init, sep);
        let head = join(init, seq![sep]) + seq![sep];
        assert(head.drop_last() =~= join(init, seq![sep]));
        assert(head.last() == sep);
        assert(split(head, sep) == init.push(empty));
        assert(parts.last() == parts[parts.len() - 1]);
        lemma_split_append_clean(head, parts.last(), sep);
        assert(init.push(empty).drop_last() =~= init);
        assert(empty + parts.last() =~= parts.last());
        assert(init.push(parts.last()) =~= parts);
    }
}

} // verus!
