//! The client's inline colour markup, and how it is taken out of a text.
//!
//! A coloured passage opens with `|c` and closes with `|r`. Between the two
//! stands either `n`, a colour name, a colon and the passage, or eight
//! characters of colour and the passage.

use crate::text::{
    extend_from, find, find_char, has_prefix, lemma_find, lemma_find_is, position,
    position_of_pair,
};
use vstd::prelude::*;

verus! {

/// The two characters that open a coloured passage.
pub open spec fn opener() -> Seq<char> {
    seq!['|', 'c']
}

/// The two characters that close a coloured passage.
pub open spec fn closer() -> Seq<char> {
    seq!['|', 'r']
}

/// The passage that `body`, the text between an opener and its closer,
/// colours. `None` when `body` has neither of the two shapes: a name without
/// colon, or fewer than eight characters of colour.
pub open spec fn colored_text(body: Seq<char>) -> Option<Seq<char>> {
    if body.len() > 0 && body[0] == 'n' {
        let colon = find_char(body, ':');
        if 0 <= colon < body.len() {
            Some(body.skip(colon + 1))
        } else {
            None
        }
    } else if body.len() >= 8 {
        Some(body.skip(8))
    } else {
        None
    }
}

/// Whether `seq` opens with `|c` and closes with `|r`, the two apart.
pub open spec fn is_sequence(seq: Seq<char>) -> bool {
    &&& seq.len() >= 4
    &&& seq.subrange(0, 2) == opener()
    &&& seq.subrange(seq.len() - 2, seq.len() as int) == closer()
}

/// What is left of an escape sequence without its markup: the passage it
/// colours. A text that is no escape sequence, or whose inside has neither
/// shape, is left as it is.
pub open spec fn sequence_text(seq: Seq<char>) -> Seq<char> {
    if is_sequence(seq) {
        match colored_text(seq.subrange(2, seq.len() - 2)) {
            Some(passage) => passage,
            None => seq,
        }
    } else {
        seq
    }
}

/// `s` without its colour markup. Each opener is paired with the first
/// closer after it and the pair gives way to the passage it colours; from an
/// opener that no closer follows, the text is left as it is.
#[verifier::opaque]
pub open spec fn strip(s: Seq<char>) -> Seq<char>
    decreases s.len(),
{
    let start = find(s, opener());
    if 0 <= start && start + 2 <= s.len() {
        let after = s.skip(start + 2);
        let end = find(after, closer());
        if 0 <= end && end + 2 <= after.len() {
            let stop = start + 2 + end + 2;
            s.take(start) + sequence_text(s.subrange(start, stop)) + strip(s.skip(stop))
        } else {
            s
        }
    } else {
        s
    }
}

/// A text that holds no opener is left as it is.
pub proof fn lemma_strip_without_opener(s: Seq<char>)
    requires
        forall|i: int| 0 <= i < s.len() ==> !has_prefix(#[trigger] s.skip(i), opener()),
    ensures
        strip(s) == s,
{
    reveal(strip);
    lemma_find_is(s, opener(), s.len() as int);
}

/// A text whose first opener is followed by no closer is left as it is.
pub proof fn lemma_strip_unclosed(s: Seq<char>, start: int)
    requires
        0 <= start && start + 2 <= s.len(),
        has_prefix(s.skip(start), opener()),
        forall|i: int| 0 <= i < start ==> !has_prefix(#[trigger] s.skip(i), opener()),
        forall|i: int| start + 2 <= i < s.len() ==> !has_prefix(#[trigger] s.skip(i), closer()),
    ensures
        strip(s) == s,
{
    reveal(strip);
    lemma_find_is(s, opener(), start);
    let after = s.skip(start + 2);
    assert forall|j: int| 0 <= j < after.len() implies !has_prefix(
        #[trigger] after.skip(j),
        closer(),
    ) by {
        assert(after.skip(j) == s.skip(start + 2 + j));
    }
    lemma_find_is(after, closer(), after.len() as int);
}

/// Appends to `out` what is left of the escape sequence `v[from..to]`
/// without its markup.
fn push_sequence_text(out: &mut Vec<char>, v: &Vec<char>, from: usize, to: usize)
    requires
        from <= to <= v.len(),
        is_sequence(v@.subrange(from as int, to as int)),
    ensures
        final(out)@ == old(out)@ + sequence_text(v@.subrange(from as int, to as int)),
{
    let ghost seq = v@.subrange(from as int, to as int);
    let ghost body = seq.subrange(2, seq.len() - 2);
    let a = from + 2;
    let b = to - 2;
    assert(body == v@.subrange(a as int, b as int));
    if a < b && v[a] == 'n' {
        let colon = position(v, a, b, ':');
        if colon < b {
            assert(body.skip(colon - a + 1) == v@.subrange(colon + 1, b as int));
            extend_from(out, v, colon + 1, b);
        } else {
            extend_from(out, v, from, to);
        }
    } else if b - a >= 8 {
        extend_from(out, v, a + 8, b);
    } else {
        extend_from(out, v, from, to);
    }
}

/// What is left of the escape sequence `v` without its markup.
pub fn sequence_chars(v: &Vec<char>) -> (out: Vec<char>)
    ensures
        out@ == sequence_text(v@),
{
    let n = v.len();
    let mut out: Vec<char> = Vec::new();
    assert(v@.subrange(0, n as int) == v@);
    if n >= 4 && v[0] == '|' && v[1] == 'c' && v[n - 2] == '|' && v[n - 1] == 'r' {
        assert(v@.subrange(0, 2) == opener());
        assert(v@.subrange(n - 2, n as int) == closer());
        push_sequence_text(&mut out, v, 0, n);
    } else {
        proof {
            // A sequence would open with `|c` and close with `|r`.
            if is_sequence(v@) {
                let head = v@.subrange(0, 2);
                let tail = v@.subrange(n - 2, n as int);
                assert(head[0] == '|' && head[1] == 'c');
                assert(tail[0] == '|' && tail[1] == 'r');
            }
        }
        extend_from(&mut out, v, 0, n);
    }
    out
}

/// What stripping does at the first pair: when the first opener of `s`
/// stands at `start` and the first closer after it at `end`, the pair gives
/// way to the passage it colours and stripping goes on behind it.
pub proof fn lemma_strip_at_pair(s: Seq<char>, start: int, end: int)
    requires
        0 <= start,
        start + 2 <= end,
        end + 2 <= s.len(),
        find(s, opener()) == start,
        find(s.skip(start + 2), closer()) == end - (start + 2),
    ensures
        is_sequence(s.subrange(start, end + 2)),
        strip(s) == s.take(start) + sequence_text(s.subrange(start, end + 2)) + strip(
            s.skip(end + 2),
        ),
{
    reveal(strip);
    let after = s.skip(start + 2);
    let seq = s.subrange(start, end + 2);
    lemma_find(s, opener());
    lemma_find(after, closer());
    assert(seq.subrange(0, 2) == s.skip(start).subrange(0, 2));
    assert(seq.subrange(seq.len() - 2, seq.len() as int) == after.skip(end - start - 2).subrange(
        0,
        2,
    ));
}

/// What stripping does without a pair: when `s` holds no opener, or no
/// closer after its first opener, it is left as it is.
pub proof fn lemma_strip_without_pair(s: Seq<char>, start: int)
    requires
        find(s, opener()) == start,
        start + 2 <= s.len() ==> find(s.skip(start + 2), closer()) == s.skip(start + 2).len(),
    ensures
        strip(s) == s,
{
    reveal(strip);
    lemma_find(s, opener());
}

/// `v` without its colour markup.
pub fn strip_chars(v: &Vec<char>) -> (out: Vec<char>)
    ensures
        out@ == strip(v@),
{
    let n = v.len();
    let mut out: Vec<char> = Vec::new();
    let mut pos: usize = 0;
    let mut done = false;
    assert(v@.skip(0) == v@);
    while !done
        invariant
            pos <= n == v.len(),
            !done ==> out@ + strip(v@.skip(pos as int)) == strip(v@),
            done ==> out@ == strip(v@),
        decreases n - pos + (if done { 0int } else { 1int }),
    {
        let ghost rest = v@.skip(pos as int);
        let ghost before = out@;
        let start = position_of_pair(v, pos, n, '|', 'c');
        let end = if start < n {
            position_of_pair(v, start + 2, n, '|', 'r')
        } else {
            n
        };
        proof {
            assert(v@.subrange(pos as int, n as int) == rest);
            if start < n {
                assert(rest.skip(start - pos + 2) == v@.subrange(start + 2, n as int));
            }
        }
        if start < n && end < n {
            proof {
                lemma_strip_at_pair(rest, start - pos, end - pos);
                assert(rest.take(start - pos) == v@.subrange(pos as int, start as int));
                assert(rest.subrange(start - pos, end - pos + 2) == v@.subrange(
                    start as int,
                    end + 2,
                ));
                assert(rest.skip(end - pos + 2) == v@.skip(end + 2));
            }
            extend_from(&mut out, v, pos, start);
            push_sequence_text(&mut out, v, start, end + 2);
            pos = end + 2;
            assert(out@ + strip(v@.skip(pos as int)) == before + strip(rest));
        } else {
            proof {
                lemma_strip_without_pair(rest, start - pos);
            }
            extend_from(&mut out, v, pos, n);
            assert(out@ == before + strip(rest));
            done = true;
        }
    }
    out
}

} // verus!
