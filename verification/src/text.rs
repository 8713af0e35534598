//! Small text helpers that the rest of the library builds on.

use vstd::prelude::*;

verus! {

/// Appends one character, as `String::push` does: the text grows by exactly that character.
#[verifier::external_body]
pub(crate) fn push_char(text: &mut String, c: char)
    ensures
        final(text)@ == old(text)@.push(c),
{
    text.push(c);
}

/// The characters of `text`, in order.
pub(crate) fn chars_of(text: &str) -> (chars: Vec<char>)
    ensures
        chars@ == text@,
{
    let mut chars: Vec<char> = Vec::new();
    for c in it: text.chars()
        invariant
            it.seq() == text@,
            chars@ == text@.take(it.index() as int),
    {
        chars.push(c);
    }
    chars
}

/// The text made of `chars`, in order.
pub(crate) fn string_of(chars: &Vec<char>) -> (text: String)
    ensures
        text@ == chars@,
{
    let mut text = String::new();
    let mut i: usize = 0;
    while i < chars.len()
        invariant
            i <= chars.len(),
            text@ == chars@.take(i as int),
        decreases chars.len() - i,
    {
        push_char(&mut text, chars[i]);
        assert(chars@.take(i as int + 1) == chars@.take(i as int).push(chars@[i as int]));
        i += 1;
    }
    assert(chars@.take(chars.len() as int) == chars@);
    text
}

/// Whether two pieces of text hold the same characters.
pub(crate) fn same_text(a: &str, b: &str) -> (same: bool)
    ensures
        same == (a@ == b@),
{
    let a = a.to_owned();
    let b = b.to_owned();
    a == b
}

/// The characters `char::is_whitespace` accepts: Unicode's `White_Space` property.
pub open spec fn is_white_space(c: char) -> bool {
    let n = c as u32;
    ||| 0x09 <= n <= 0x0D
    ||| n == 0x20
    ||| n == 0x85
    ||| n == 0xA0
    ||| n == 0x1680
    ||| 0x2000 <= n <= 0x200A
    ||| n == 0x2028
    ||| n == 0x2029
    ||| n == 0x202F
    ||| n == 0x205F
    ||| n == 0x3000
}

/// Text that is empty once trimmed: nothing in it but white space.
pub open spec fn is_blank(text: Seq<char>) -> bool {
    forall|i: int| 0 <= i < text.len() ==> is_white_space(#[trigger] text[i])
}

/// Whether `c` is white space (Unicode `White_Space`).
pub(crate) fn white_space(c: char) -> (w: bool)
    ensures
        w == is_white_space(c),
{
    let n = c as u32;
    (0x09 <= n && n <= 0x0D) || n == 0x20 || n == 0x85 || n == 0xA0 || n == 0x1680 || (0x2000
        <= n && n <= 0x200A) || n == 0x2028 || n == 0x2029 || n == 0x202F || n == 0x205F || n
        == 0x3000
}

/// Whether the characters are all white space (what `str::trim` leaves empty).
pub(crate) fn blank(chars: &Vec<char>) -> (b: bool)
    ensures
        b == is_blank(chars@),
{
    let mut i: usize = 0;
    while i < chars.len()
        invariant
            i <= chars.len(),
            forall|j: int| 0 <= j < i ==> is_white_space(#[trigger] chars@[j]),
        decreases chars.len() - i,
    {
        if !white_space(chars[i]) {
            return false;
        }
        i += 1;
    }
    true
}

/// `text` without the white space it starts with.
pub open spec fn trim_start(text: Seq<char>) -> Seq<char>
    decreases text.len(),
{
    if text.len() > 0 && is_white_space(text[0]) {
        trim_start(text.skip(1))
    } else {
        text
    }
}

/// `text` without the white space it ends with.
pub open spec fn trim_end(text: Seq<char>) -> Seq<char>
    decreases text.len(),
{
    if text.len() > 0 && is_white_space(text.last()) {
        trim_end(text.drop_last())
    } else {
        text
    }
}

/// `text` without white space at either end (what `str::trim` gives).
pub open spec fn trimmed(text: Seq<char>) -> Seq<char> {
    trim_end(trim_start(text))
}

/// `text` without white space at either end.
pub(crate) fn trim(text: &Vec<char>) -> (out: Vec<char>)
    ensures
        out@ == trimmed(text@),
{
    let mut from: usize = 0;
    assert(text@.skip(0) =~= text@);
    while from < text.len() && white_space(text[from])
        invariant
            from <= text.len(),
            trim_start(text@) == trim_start(text@.skip(from as int)),
        decreases text.len() - from,
    {
        assert(text@.skip(from as int).skip(1) =~= text@.skip(from as int + 1));
        from += 1;
    }
    let mut to: usize = text.len();
    let ghost start = text@.skip(from as int);
    assert(trim_start(start) == start);
    assert(text@.subrange(from as int, to as int) =~= start);
    while to > from && white_space(text[to - 1])
        invariant
            from <= to <= text.len(),
            trim_end(start) == trim_end(text@.subrange(from as int, to as int)),
        decreases to - from,
    {
        assert(text@.subrange(from as int, to as int).drop_last() =~= text@.subrange(from as int, to - 1));
        to -= 1;
    }
    let mut out: Vec<char> = Vec::new();
    let mut i = from;
    while i < to
        invariant
            from <= i <= to <= text.len(),
            out@ =~= text@.subrange(from as int, i as int),
        decreases to - i,
    {
        out.push(text[i]);
        i += 1;
    }
    out
}

/// Where the first tab of `text` is (its length when there is none).
pub open spec fn tab_at(text: Seq<char>) -> nat
    decreases text.len(),
{
    if text.len() == 0 {
        0
    } else if text[0] == '\t' {
        0
    } else {
        1 + tab_at(text.skip(1))
    }
}

/// The first tab of `text` is at `k` when `k` holds one (or is the end) and no earlier
/// position does.
pub proof fn lemma_tab_at_first(text: Seq<char>, k: int)
    requires
        0 <= k <= text.len(),
        k < text.len() ==> text[k] == '\t',
        forall|j: int| 0 <= j < k ==> text[j] != '\t',
    ensures
        tab_at(text) == k,
    decreases k,
{
    if k > 0 {
        lemma_tab_at_first(text.skip(1), k - 1);
    }
}

/// The second tab-separated field of `line`, if it has one.
pub open spec fn second_field(line: Seq<char>) -> Option<Seq<char>> {
    let t = tab_at(line);
    if t >= line.len() {
        None
    } else {
        let rest = line.skip(t + 1 as int);
        Some(rest.take(tab_at(rest) as int))
    }
}

/// The second tab-separated field of `line` (see [`second_field`]).
pub(crate) fn second_field_of(line: &Vec<char>) -> (field: Option<Vec<char>>)
    ensures
        match field {
            Some(f) => second_field(line@) == Some(f@),
            None => second_field(line@) is None,
        },
{
    let mut t: usize = 0;
    while t < line.len() && line[t] != '\t'
        invariant
            t <= line.len(),
            forall|j: int| 0 <= j < t ==> line@[j] != '\t',
        decreases line.len() - t,
    {
        t += 1;
    }
    proof {
        lemma_tab_at_first(line@, t as int);
    }
    if t >= line.len() {
        return None;
    }
    let mut out: Vec<char> = Vec::new();
    let mut i = t + 1;
    while i < line.len() && line[i] != '\t'
        invariant
            t + 1 <= i <= line.len(),
            out@ =~= line@.subrange(t + 1, i as int),
            forall|j: int| t + 1 <= j < i ==> line@[j] != '\t',
        decreases line.len() - i,
    {
        out.push(line[i]);
        i += 1;
    }
    proof {
        let rest = line@.skip(t + 1 as int);
        lemma_tab_at_first(rest, i - t - 1);
        assert(rest.take(i - t - 1) =~= out@);
    }
    Some(out)
}

} // verus!
