//! One entry of free text written as one line: the escaping used by the history files.
//!
//! Backslash, newline, carriage return and tab are escaped; everything else is kept.
//! Reading an escape that is not one of those four keeps both characters as they are.

use vstd::prelude::*;
use crate::text::{chars_of, push_char, string_of};

verus! {

/// What one character becomes when written out.
pub open spec fn escape_char(c: char) -> Seq<char> {
    if c == '\\' {
        seq!['\\', '\\']
    } else if c == '\n' {
        seq!['\\', 'n']
    } else if c == '\r' {
        seq!['\\', 'r']
    } else if c == '\t' {
        seq!['\\', 't']
    } else {
        seq![c]
    }
}

/// The escaped form of `text`: each character escaped in turn.
pub open spec fn escaped(text: Seq<char>) -> Seq<char>
    decreases text.len(),
{
    if text.len() == 0 {
        Seq::empty()
    } else {
        escape_char(text[0]) + escaped(text.skip(1))
    }
}

/// What the character after a backslash stands for, if it is one of the known escapes.
pub open spec fn escape_meaning(c: char) -> Option<char> {
    if c == 'n' {
        Some('\n')
    } else if c == 'r' {
        Some('\r')
    } else if c == 't' {
        Some('\t')
    } else if c == '\\' {
        Some('\\')
    } else {
        None
    }
}

/// Reading a line back: known escapes are decoded, an unknown one keeps its backslash and
/// its character, and a lone backslash at the very end stays.
pub open spec fn unescaped(line: Seq<char>) -> Seq<char>
    decreases line.len(),
{
    if line.len() == 0 {
        Seq::empty()
    } else if line[0] != '\\' {
        seq![line[0]] + unescaped(line.skip(1))
    } else if line.len() == 1 {
        seq!['\\']
    } else {
        match escape_meaning(line[1]) {
            Some(c) => seq![c] + unescaped(line.skip(2)),
            None => seq!['\\', line[1]] + unescaped(line.skip(2)),
        }
    }
}

/// Writes one entry as one line: backslash, newline, carriage return and tab become
/// two-character escapes.
pub fn escape(text: &str) -> (line: String)
    ensures
        line@ == escaped(text@),
{
    let chars = chars_of(text);
    let mut out = String::new();
    let mut i: usize = 0;
    assert(chars@.skip(0) =~= chars@);
    assert(out@ + escaped(chars@) =~= escaped(chars@));
    while i < chars.len()
        invariant
            i <= chars.len(),
            out@ + escaped(chars@.skip(i as int)) == escaped(chars@),
        decreases chars.len() - i,
    {
        let c = chars[i];
        assert(chars@.skip(i as int).skip(1) == chars@.skip(i as int + 1));
        if c == '\\' {
            push_char(&mut out, '\\');
            push_char(&mut out, '\\');
        } else if c == '\n' {
            push_char(&mut out, '\\');
            push_char(&mut out, 'n');
        } else if c == '\r' {
            push_char(&mut out, '\\');
            push_char(&mut out, 'r');
        } else if c == '\t' {
            push_char(&mut out, '\\');
            push_char(&mut out, 't');
        } else {
            push_char(&mut out, c);
        }
        assert(out@ + escaped(chars@.skip(i as int + 1)) == escaped(chars@));
        i += 1;
    }
    assert(chars@.skip(chars.len() as int) =~= Seq::<char>::empty());
    assert(out@ + Seq::<char>::empty() == out@);
    out
}

/// Reads one line back into the entry it was written from (see [`unescaped`]).
pub fn unescape(line: &str) -> (text: String)
    ensures
        text@ == unescaped(line@),
{
    let chars = chars_of(line);
    let out = unescape_chars(&chars);
    string_of(&out)
}

/// [`unescape`] on characters already split out of their text.
pub(crate) fn unescape_chars(chars: &Vec<char>) -> (text: Vec<char>)
    ensures
        text@ == unescaped(chars@),
{
    let mut out: Vec<char> = Vec::new();
    let mut i: usize = 0;
    assert(chars@.skip(0) =~= chars@);
    assert(out@ + unescaped(chars@) =~= unescaped(chars@));
    while i < chars.len()
        invariant
            i <= chars.len(),
            out@ + unescaped(chars@.skip(i as int)) == unescaped(chars@),
        decreases chars.len() - i,
    {
        let c = chars[i];
        let ghost rest = chars@.skip(i as int);
        if c != '\\' {
            out.push(c);
            assert(rest.skip(1) == chars@.skip(i as int + 1));
            i += 1;
        } else if i + 1 == chars.len() {
            out.push('\\');
            assert(chars@.skip(i as int + 1) =~= Seq::<char>::empty());
            i += 1;
        } else {
            let next = chars[i + 1];
            assert(rest[1] == next);
            assert(rest.skip(2) == chars@.skip(i as int + 2));
            if next == 'n' {
                out.push('\n');
            } else if next == 'r' {
                out.push('\r');
            } else if next == 't' {
                out.push('\t');
            } else if next == '\\' {
                out.push('\\');
            } else {
                out.push('\\');
                out.push(next);
            }
            i += 2;
        }
    }
    assert(chars@.skip(chars.len() as int) =~= Seq::<char>::empty());
    assert(out@ + Seq::<char>::empty() == out@);
    out
}

/// Reading back what was written gives the entry again, for every entry.
pub proof fn lemma_unescape_escape(text: Seq<char>)
    ensures
        unescaped(escaped(text)) == text,
    decreases text.len(),
{
    if text.len() == 0 {
        assert(escaped(text) == Seq::<char>::empty());
    } else {
        let c = text[0];
        let rest = escaped(text.skip(1));
        lemma_unescape_escape(text.skip(1));
        let whole = escape_char(c) + rest;
        assert(escaped(text) == whole);
        if escape_char(c).len() == 1 {
            assert(whole[0] == c);
            assert(whole.skip(1) =~= rest);
        } else {
            assert(whole[0] == '\\');
            assert(whole.skip(2) =~= rest);
        }
        assert(seq![c] + text.skip(1) =~= text);
    }
}

/// An escaped entry holds no line break, carriage return or tab: one entry is one line.
pub proof fn lemma_escaped_is_one_line(text: Seq<char>)
    ensures
        forall|i: int|
            0 <= i < escaped(text).len() ==> {
                let c = #[trigger] escaped(text)[i];
                c != '\n' && c != '\r' && c != '\t'
            },
    decreases text.len(),
{
    if text.len() > 0 {
        lemma_escaped_is_one_line(text.skip(1));
        let head = escape_char(text[0]);
        let rest = escaped(text.skip(1));
        assert forall|i: int| 0 <= i < escaped(text).len() implies {
            let c = #[trigger] escaped(text)[i];
            c != '\n' && c != '\r' && c != '\t'
        } by {
            if i >= head.len() {
                assert(escaped(text)[i] == rest[i - head.len()]);
            }
        }
    }
}

} // verus!
