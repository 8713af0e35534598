//! Splitting text into lines the way `str::lines` does.

use vstd::prelude::*;

verus! {

/// Where the first line feed of `text` is (its length when there is none).
pub open spec fn newline_at(text: Seq<char>) -> nat
    decreases text.len(),
{
    if text.len() == 0 {
        0
    } else if text[0] == '\n' {
        0
    } else {
        1 + newline_at(text.skip(1))
    }
}

/// A line without the carriage return that stood right before its line feed.
pub open spec fn strip_cr(line: Seq<char>) -> Seq<char> {
    if line.len() > 0 && line.last() == '\r' {
        line.drop_last()
    } else {
        line
    }
}

/// The lines of `text`, as `str::lines` yields them: split after each line feed, the line
/// feed and a carriage return right before it dropped, no empty line after a final line feed.
pub open spec fn lines(text: Seq<char>) -> Seq<Seq<char>>
    decreases text.len(),
{
    if text.len() == 0 {
        Seq::empty()
    } else {
        let k = newline_at(text);
        if k >= text.len() {
            seq![text]
        } else {
            seq![strip_cr(text.take(k as int))] + lines(text.skip(k + 1 as int))
        }
    }
}

/// The first line break of `text` is at `k` when `k` holds one (or is the end) and no
/// earlier position does.
pub proof fn lemma_newline_at_first(text: Seq<char>, k: int)
    requires
        0 <= k <= text.len(),
        k < text.len() ==> text[k] == '\n',
        forall|j: int| 0 <= j < k ==> text[j] != '\n',
    ensures
        newline_at(text) == k,
    decreases k,
{
    if k > 0 {
        lemma_newline_at_first(text.skip(1), k - 1);
    }
}

/// The lines of `text` (see [`lines`]).
pub(crate) fn split_lines(text: &Vec<char>) -> (out: Vec<Vec<char>>)
    ensures
        out@.map_values(|l: Vec<char>| l@) == lines(text@),
{
    let mut out: Vec<Vec<char>> = Vec::new();
    let mut current: Vec<char> = Vec::new();
    let mut start: usize = 0;
    let mut i: usize = 0;
    assert(text@.skip(0) =~= text@);
    assert(out@.map_values(|l: Vec<char>| l@) + lines(text@) =~= lines(text@));
    while i < text.len()
        invariant
            start <= i <= text.len(),
            current@ == text@.subrange(start as int, i as int),
            forall|j: int| start <= j < i ==> text@[j] != '\n',
            out@.map_values(|l: Vec<char>| l@) + lines(text@.skip(start as int)) == lines(text@),
        decreases text.len() - i,
    {
        let c = text[i];
        if c == '\n' {
            let ghost rest = text@.skip(start as int);
            proof {
                lemma_newline_at_first(rest, i - start);
                assert(rest.take(i - start) =~= current@);
                assert(rest.skip(i - start + 1) =~= text@.skip(i as int + 1));
            }
            let mut line = current;
            if line.len() > 0 && line[line.len() - 1] == '\r' {
                line.pop();
            }
            assert(line@ == strip_cr(text@.subrange(start as int, i as int)));
            let ghost before = out@.map_values(|l: Vec<char>| l@);
            out.push(line);
            assert(out@.map_values(|l: Vec<char>| l@) =~= before.push(line@));
            current = Vec::new();
            i += 1;
            start = i;
            assert(current@ =~= text@.subrange(start as int, i as int));
        } else {
            current.push(c);
            i += 1;
            assert(current@ =~= text@.subrange(start as int, i as int));
        }
    }
    let ghost rest = text@.skip(start as int);
    proof {
        lemma_newline_at_first(rest, rest.len() as int);
        assert(rest =~= current@);
    }
    if current.len() > 0 {
        let ghost before = out@.map_values(|l: Vec<char>| l@);
        out.push(current);
        assert(out@.map_values(|l: Vec<char>| l@) =~= before.push(rest));
    } else {
        assert(out@.map_values(|l: Vec<char>| l@) + lines(rest) =~= out@.map_values(|l: Vec<char>| l@));
    }
    out
}

} // verus!
