//! "Recently used" lists kept on disk: the clipboard history and the emoji panel's
//! recent row share this one type.
//!
//! Newest first, no repeats, a cap on the count, blank text never kept. Entries are free
//! text, so each is escaped onto one line of the file (see [`crate::escape`]).
//! Reading and writing the file is the caller's part: every method that changes the list
//! says so, and [`Recent::to_text`] gives what the file must then hold.

use vstd::prelude::*;
use crate::escape::{escape, escape_char, escaped, unescape_chars, unescaped, lemma_escaped_is_one_line, lemma_unescape_escape};
use crate::lines::{lines, newline_at, split_lines, strip_cr, lemma_newline_at_first};
use crate::text::{blank, chars_of, is_blank, same_text, string_of};

verus! {

/// How many clipboard entries are kept; past that the oldest go.
pub const CLIPBOARD_LIMIT: usize = 50;

/// How many entries the emoji panel's recent row keeps (two rows of fifteen).
pub const EMOJI_RECENT_LIMIT: usize = 30;

/// The characters of each text, in order.
pub open spec fn views(texts: Seq<String>) -> Seq<Seq<char>> {
    texts.map_values(|t: String| t@)
}

/// `list` without any entry equal to `text`, the others kept in order.
pub open spec fn without(list: Seq<Seq<char>>, text: Seq<char>) -> Seq<Seq<char>>
    decreases list.len(),
{
    if list.len() == 0 {
        Seq::empty()
    } else if list[0] == text {
        without(list.skip(1), text)
    } else {
        seq![list[0]] + without(list.skip(1), text)
    }
}

/// The first `limit` entries (all of them when there are fewer).
pub open spec fn capped(list: Seq<Seq<char>>, limit: nat) -> Seq<Seq<char>> {
    if list.len() <= limit {
        list
    } else {
        list.take(limit as int)
    }
}

/// Whether remembering `text` changes anything: blank text is refused, and text that is
/// already the newest entry stays where it is.
pub open spec fn remember_changes(list: Seq<Seq<char>>, text: Seq<char>) -> bool {
    !is_blank(text) && !(list.len() > 0 && list[0] == text)
}

/// The list after remembering `text`: it moves (or goes) to the front, any older copy of it
/// is dropped, and past `limit` the oldest entries go.
pub open spec fn remembered(list: Seq<Seq<char>>, limit: nat, text: Seq<char>) -> Seq<Seq<char>> {
    if remember_changes(list, text) {
        capped(seq![text] + without(list, text), limit)
    } else {
        list
    }
}

/// The entries whose `keep` answer is true, in order.
pub open spec fn selected<T>(list: Seq<T>, keep: Seq<bool>) -> Seq<T>
    decreases list.len(),
{
    if list.len() == 0 || keep.len() == 0 {
        Seq::empty()
    } else if keep[0] {
        seq![list[0]] + selected(list.skip(1), keep.skip(1))
    } else {
        selected(list.skip(1), keep.skip(1))
    }
}

/// `answers[i]` is what `keep` said when asked about `list[i]` (handed over as `asked[i]`).
pub open spec fn answered<F: Fn(&str) -> bool>(
    keep: F,
    list: Seq<Seq<char>>,
    asked: Seq<&str>,
    answers: Seq<bool>,
) -> bool {
    &&& asked.len() == list.len()
    &&& answers.len() == list.len()
    &&& forall|i: int|
        0 <= i < asked.len() ==> {
            &&& (#[trigger] asked[i])@ == list[i]
            &&& keep.ensures((asked[i],), answers[i])
        }
}

/// Whether a line of the file holds an entry: not empty, not a `#` comment, and not blank
/// once read back.
pub open spec fn holds_entry(line: Seq<char>) -> bool {
    line.len() > 0 && line[0] != '#' && !is_blank(unescaped(line))
}

/// The entries that `file_lines` hold, in order.
pub open spec fn entries_of(file_lines: Seq<Seq<char>>) -> Seq<Seq<char>>
    decreases file_lines.len(),
{
    if file_lines.len() == 0 {
        Seq::empty()
    } else if holds_entry(file_lines[0]) {
        seq![unescaped(file_lines[0])] + entries_of(file_lines.skip(1))
    } else {
        entries_of(file_lines.skip(1))
    }
}

/// What reading a history file gives: its entries, at most `limit` of them.
pub open spec fn parsed(text: Seq<char>, limit: nat) -> Seq<Seq<char>> {
    capped(entries_of(lines(text)), limit)
}

/// The comment the file starts with.
pub open spec fn header() -> Seq<char> {
    "# 剪贴板历史，一行一条、最新的在最前"@
}

/// The file body: each entry escaped onto a line of its own.
pub open spec fn body(list: Seq<Seq<char>>) -> Seq<char>
    decreases list.len(),
{
    if list.len() == 0 {
        Seq::empty()
    } else {
        escaped(list[0]).push('\n') + body(list.skip(1))
    }
}

/// The whole file for `list`: the header line, then one line per entry, newest first.
pub open spec fn file_text(list: Seq<Seq<char>>) -> Seq<char> {
    header().push('\n') + body(list)
}

/// A list the history can hold: no blank entry, no more than `limit` of them.
pub open spec fn fits(list: Seq<Seq<char>>, limit: nat) -> bool {
    &&& list.len() <= limit
    &&& forall|i: int| 0 <= i < list.len() ==> !is_blank(#[trigger] list[i])
}

/// A "recently used" list: newest first, capped, never holding blank text.
#[derive(Debug)]
pub struct Recent {
    entries: Vec<String>,
    limit: usize,
}

impl View for Recent {
    type V = Seq<Seq<char>>;

    closed spec fn view(&self) -> Seq<Seq<char>> {
        views(self.entries@)
    }
}

impl Recent {
    #[verifier::type_invariant]
    closed spec fn well_formed(self) -> bool {
        fits(views(self.entries@), self.limit as nat)
    }

    /// The cap this list was made with.
    pub closed spec fn spec_limit(&self) -> nat {
        self.limit as nat
    }

    /// An empty list in memory, capped at [`CLIPBOARD_LIMIT`].
    pub fn new() -> (recent: Recent)
        ensures
            recent@ == Seq::<Seq<char>>::empty(),
            recent.spec_limit() == CLIPBOARD_LIMIT,
    {
        let recent = Recent { entries: Vec::new(), limit: CLIPBOARD_LIMIT };
        assert(views(recent.entries@) =~= Seq::<Seq<char>>::empty());
        recent
    }

    /// The list a history file holds (`None`: there is no file yet), capped at `limit`.
    /// Empty lines, `#` comments and entries that read back blank are skipped.
    pub fn from_text(text: Option<&str>, limit: usize) -> (recent: Recent)
        ensures
            recent@ == (match text {
                Some(t) => parsed(t@, limit as nat),
                None => Seq::empty(),
            }),
            recent.spec_limit() == limit,
    {
        let entries = match text {
            Some(t) => parse(t, limit),
            None => Vec::new(),
        };
        proof {
            if text is None {
                assert(views(entries@) =~= Seq::<Seq<char>>::empty());
            } else {
                lemma_parsed_fits(text->0@, limit as nat);
            }
        }
        Recent { entries, limit }
    }

    /// The entries, newest first.
    /// Every list fits its cap and holds no blank entry.
    pub fn entries(&self) -> (entries: &[String])
        ensures
            views(entries@) == self@,
            fits(self@, self.spec_limit()),
    {
        proof {
            use_type_invariant(self);
        }
        self.entries.as_slice()
    }

    pub fn len(&self) -> (len: usize)
        ensures
            len == self@.len(),
    {
        self.entries.len()
    }

    pub fn is_empty(&self) -> (empty: bool)
        ensures
            empty == (self@.len() == 0),
    {
        self.entries.len() == 0
    }

    /// Remembers `text`: copied again, it only moves to the front; past the cap the oldest
    /// entry goes; blank text is refused. Returns whether the list changed (and the file
    /// must be written again).
    pub fn remember(&mut self, text: &str) -> (changed: bool)
        ensures
            changed == remember_changes(old(self)@, text@),
            final(self)@ == remembered(old(self)@, old(self).spec_limit(), text@),
            final(self).spec_limit() == old(self).spec_limit(),
    {
        proof {
            use_type_invariant(&*self);
        }
        let chars = chars_of(text);
        if blank(&chars) {
            return false;
        }
        if self.entries.len() > 0 && same_text(self.entries[0].as_str(), text) {
            return false;
        }
        let ghost old_list = self@;
        let mut kept: Vec<String> = Vec::new();
        kept.push(text.to_owned());
        let mut i: usize = 0;
        assert(old_list.skip(0) =~= old_list);
        assert(views(kept@) =~= seq![text@]);
        while i < self.entries.len()
            invariant
                i <= self.entries.len(),
                old_list == views(self.entries@),
                views(kept@) + without(old_list.skip(i as int), text@) == seq![text@] + without(
                    old_list,
                    text@,
                ),
            decreases self.entries.len() - i,
        {
            let entry = &self.entries[i];
            assert(old_list.skip(i as int).skip(1) =~= old_list.skip(i as int + 1));
            assert(old_list.skip(i as int)[0] == entry@);
            if !same_text(entry.as_str(), text) {
                let ghost before = views(kept@);
                kept.push(entry.clone());
                assert(views(kept@) =~= before.push(entry@));
                assert(seq![entry@] + without(old_list.skip(i as int + 1), text@) == without(old_list.skip(i as int), text@));
                assert(before.push(entry@) + without(old_list.skip(i as int + 1), text@) =~= before + (seq![entry@] + without(old_list.skip(i as int + 1), text@)));
            }
            i += 1;
        }
        assert(old_list.skip(i as int) =~= Seq::<Seq<char>>::empty());
        assert(views(kept@) + Seq::<Seq<char>>::empty() =~= views(kept@));
        let ghost all = views(kept@);
        kept.truncate(self.limit);
        assert(views(kept@) =~= capped(all, self.limit as nat));
        proof {
            lemma_without_fits(old_list, text@, self.limit as nat);
        }
        self.entries = kept;
        true
    }

    /// Drops the entry at `index` (in the whole list). Returns whether there was one.
    pub fn remove(&mut self, index: usize) -> (changed: bool)
        ensures
            changed == (index < old(self)@.len()),
            final(self)@ == (if changed { old(self)@.remove(index as int) } else { old(self)@ }),
            final(self).spec_limit() == old(self).spec_limit(),
    {
        proof {
            use_type_invariant(&*self);
        }
        if index >= self.entries.len() {
            return false;
        }
        let mut entries = self.entries.clone();
        assert(views(entries@) =~= self@) by {
            assert forall|i: int| 0 <= i < entries@.len() implies entries@[i]@ == self.entries@[i]@ by {
                assert(cloned::<String>(self.entries@[i], entries@[i]));
            }
        }
        entries.remove(index);
        assert(views(entries@) =~= old(self)@.remove(index as int));
        self.entries = entries;
        true
    }

    /// Empties the list. Returns whether there was anything in it.
    pub fn clear(&mut self) -> (changed: bool)
        ensures
            changed == (old(self)@.len() > 0),
            final(self)@ == Seq::<Seq<char>>::empty(),
            final(self).spec_limit() == old(self).spec_limit(),
    {
        if self.entries.len() == 0 {
            assert(self@ =~= Seq::<Seq<char>>::empty());
            return false;
        }
        self.entries = Vec::new();
        assert(self@ =~= Seq::<Seq<char>>::empty());
        true
    }

    /// Keeps only the entries `keep` accepts (who decides is the caller's business, such as
    /// "can this still be drawn"), in order. The list changed exactly when it got shorter.
    pub fn retain<F: Fn(&str) -> bool>(&mut self, keep: F)
        requires
            forall|s: &str| keep.requires((s,)),
        ensures
            final(self).spec_limit() == old(self).spec_limit(),
            exists|asked: Seq<&str>, answers: Seq<bool>|
                #[trigger] answered(keep, old(self)@, asked, answers) && final(self)@ == selected(
                    old(self)@,
                    answers,
                ),
    {
        proof {
            use_type_invariant(&*self);
        }
        let ghost old_list = self@;
        let mut kept: Vec<String> = Vec::new();
        let ghost mut asked: Seq<&str> = Seq::empty();
        let ghost mut answers: Seq<bool> = Seq::empty();
        let mut i: usize = 0;
        while i < self.entries.len()
            invariant
                i <= self.entries.len(),
                old_list == views(self.entries@),
                forall|s: &str| keep.requires((s,)),
                asked.len() == i,
                answers.len() == i,
                forall|j: int|
                    0 <= j < i ==> {
                        &&& (#[trigger] asked[j])@ == old_list[j]
                        &&& keep.ensures((asked[j],), answers[j])
                    },
                views(kept@) == selected(old_list.take(i as int), answers),
            decreases self.entries.len() - i,
        {
            let entry = &self.entries[i];
            let s = entry.as_str();
            let answer = keep(s);
            proof {
                lemma_selected_push(old_list.take(i as int), answers, entry@, answer);
                assert(old_list.take(i as int).push(entry@) =~= old_list.take(i as int + 1));
            }
            if answer {
                let ghost before = views(kept@);
                kept.push(entry.clone());
                assert(views(kept@) =~= before.push(entry@));
            }
            proof {
                asked = asked.push(s);
                answers = answers.push(answer);
            }
            i += 1;
        }
        assert(old_list.take(i as int) =~= old_list);
        assert(answered(keep, old_list, asked, answers));
        proof {
            lemma_selected_fits(old_list, answers, self.limit as nat);
        }
        self.entries = kept;
    }

    /// What the file must hold for this list: a header comment, then one escaped entry per
    /// line, newest first.
    pub fn to_text(&self) -> (text: String)
        ensures
            text@ == file_text(self@),
    {
        let mut out = String::from_str("# 剪贴板历史，一行一条、最新的在最前");
        crate::text::push_char(&mut out, '\n');
        let ghost list = self@;
        let mut i: usize = 0;
        assert(list.skip(0) =~= list);
        while i < self.entries.len()
            invariant
                i <= self.entries.len(),
                list == views(self.entries@),
                out@ + body(list.skip(i as int)) == file_text(list),
            decreases self.entries.len() - i,
        {
            let line = escape(self.entries[i].as_str());
            assert(list.skip(i as int).skip(1) =~= list.skip(i as int + 1));
            assert(list.skip(i as int)[0] == self.entries@[i as int]@);
            out.append(line.as_str());
            crate::text::push_char(&mut out, '\n');
            assert(out@ + body(list.skip(i as int + 1)) =~= file_text(list));
            i += 1;
        }
        assert(list.skip(i as int) =~= Seq::<Seq<char>>::empty());
        assert(out@ + Seq::<char>::empty() =~= out@);
        out
    }
}

impl Default for Recent {
    /// An empty list in memory, capped at [`CLIPBOARD_LIMIT`].
    fn default() -> (recent: Recent)
        ensures
            recent@ == Seq::<Seq<char>>::empty(),
            recent.spec_limit() == CLIPBOARD_LIMIT,
    {
        Recent::new()
    }
}

/// Reads a history file's text: the entries of its lines (see [`holds_entry`]), at most
/// `limit` of them, in file order.
pub fn parse(text: &str, limit: usize) -> (entries: Vec<String>)
    ensures
        views(entries@) == parsed(text@, limit as nat),
{
    let chars = chars_of(text);
    let file_lines = split_lines(&chars);
    let ghost ls = file_lines@.map_values(|l: Vec<char>| l@);
    let mut out: Vec<String> = Vec::new();
    let mut i: usize = 0;
    assert(ls.skip(0) =~= ls);
    assert(views(out@) + entries_of(ls) =~= entries_of(ls));
    while i < file_lines.len() && out.len() < limit
        invariant
            i <= file_lines.len(),
            out.len() <= limit,
            ls == file_lines@.map_values(|l: Vec<char>| l@),
            ls == lines(text@),
            views(out@) + entries_of(ls.skip(i as int)) == entries_of(ls),
        decreases file_lines.len() - i,
    {
        let line = &file_lines[i];
        assert(ls.skip(i as int)[0] == line@);
        assert(ls.skip(i as int).skip(1) =~= ls.skip(i as int + 1));
        if line.len() > 0 && line[0] != '#' {
            let entry = unescape_chars(line);
            if !blank(&entry) {
                let ghost before = views(out@);
                let s = string_of(&entry);
                out.push(s);
                assert(views(out@) =~= before.push(entry@));
                assert(before.push(entry@) + entries_of(ls.skip(i as int + 1)) =~= before + (seq![entry@] + entries_of(ls.skip(i as int + 1))));
            }
        }
        i += 1;
    }
    proof {
        let all = entries_of(ls);
        if out.len() == limit {
            assert(all.take(limit as int) =~= views(out@));
        } else {
            assert(ls.skip(i as int) =~= Seq::<Seq<char>>::empty());
            assert(views(out@) + Seq::<Seq<char>>::empty() =~= views(out@));
        }
    }
    out
}

proof fn lemma_without_excludes(list: Seq<Seq<char>>, text: Seq<char>)
    ensures
        forall|i: int| 0 <= i < without(list, text).len() ==> #[trigger] without(list, text)[i] != text,
        forall|i: int| 0 <= i < without(list, text).len() ==> list.contains(#[trigger] without(list, text)[i]),
        without(list, text).len() <= list.len(),
    decreases list.len(),
{
    if list.len() > 0 {
        lemma_without_excludes(list.skip(1), text);
        let rest = without(list.skip(1), text);
        assert forall|i: int| 0 <= i < rest.len() implies list.contains(#[trigger] rest[i]) by {
            let j = choose|j: int| 0 <= j < list.skip(1).len() && list.skip(1)[j] == rest[i];
            assert(list[j + 1] == rest[i]);
        }
        if list[0] != text {
            let w = without(list, text);
            assert forall|i: int| 0 <= i < w.len() implies list.contains(#[trigger] w[i]) by {
                if i > 0 {
                    assert(w[i] == rest[i - 1]);
                } else {
                    assert(list[0] == w[0]);
                }
            }
        }
    }
}

proof fn lemma_without_fits(list: Seq<Seq<char>>, text: Seq<char>, limit: nat)
    requires
        fits(list, limit),
        !is_blank(text),
    ensures
        fits(capped(seq![text] + without(list, text), limit), limit),
{
    lemma_without_excludes(list, text);
    let all = seq![text] + without(list, text);
    assert forall|i: int| 0 <= i < all.len() implies !is_blank(#[trigger] all[i]) by {
        if i > 0 {
            let w = without(list, text);
            assert(all[i] == w[i - 1]);
            assert(list.contains(w[i - 1]));
        }
    }
}

pub(crate) proof fn lemma_selected_push<T>(list: Seq<T>, answers: Seq<bool>, x: T, b: bool)
    requires
        list.len() == answers.len(),
    ensures
        selected(list.push(x), answers.push(b)) == (if b {
            selected(list, answers).push(x)
        } else {
            selected(list, answers)
        }),
    decreases list.len(),
{
    if list.len() == 0 {
        assert(list.push(x).skip(1) =~= Seq::<T>::empty());
        assert(answers.push(b).skip(1) =~= Seq::<bool>::empty());
        assert(selected(Seq::<T>::empty(), Seq::<bool>::empty()) == Seq::<T>::empty());
        assert(list.push(x)[0] == x);
        assert(seq![x] + Seq::<T>::empty() =~= Seq::<T>::empty().push(x));
        assert(list =~= Seq::<T>::empty());
    } else {
        lemma_selected_push(list.skip(1), answers.skip(1), x, b);
        assert(list.push(x).skip(1) =~= list.skip(1).push(x));
        assert(answers.push(b).skip(1) =~= answers.skip(1).push(b));
        if answers[0] {
            let rest = selected(list.skip(1), answers.skip(1));
            assert(seq![list[0]] + rest.push(x) =~= (seq![list[0]] + rest).push(x));
        }
        assert(list.push(x)[0] == list[0]);
        assert(answers.push(b)[0] == answers[0]);
    }
}

proof fn lemma_selected_contained<T>(list: Seq<T>, answers: Seq<bool>)
    ensures
        selected(list, answers).len() <= list.len(),
        forall|i: int|
            0 <= i < selected(list, answers).len() ==> list.contains(#[trigger] selected(list, answers)[i]),
    decreases list.len(),
{
    if list.len() > 0 && answers.len() > 0 {
        lemma_selected_contained(list.skip(1), answers.skip(1));
        let rest = selected(list.skip(1), answers.skip(1));
        let s = selected(list, answers);
        assert forall|i: int| 0 <= i < s.len() implies list.contains(#[trigger] s[i]) by {
            let k = if answers[0] { i - 1 } else { i };
            if answers[0] && i == 0 {
                assert(s[0] == list[0]);
            } else {
                assert(s[i] == rest[k]);
                let j = choose|j: int| 0 <= j < list.skip(1).len() && list.skip(1)[j] == rest[k];
                assert(list[j + 1] == s[i]);
            }
        }
    }
}

proof fn lemma_selected_fits(list: Seq<Seq<char>>, answers: Seq<bool>, limit: nat)
    requires
        fits(list, limit),
    ensures
        fits(selected(list, answers), limit),
{
    lemma_selected_contained(list, answers);
    let s = selected(list, answers);
    assert forall|i: int| 0 <= i < s.len() implies !is_blank(#[trigger] s[i]) by {
        assert(list.contains(s[i]));
    }
}

proof fn lemma_entries_of_unblank(ls: Seq<Seq<char>>)
    ensures
        forall|i: int| 0 <= i < entries_of(ls).len() ==> !is_blank(#[trigger] entries_of(ls)[i]),
    decreases ls.len(),
{
    if ls.len() > 0 {
        lemma_entries_of_unblank(ls.skip(1));
        let rest = entries_of(ls.skip(1));
        let e = entries_of(ls);
        assert forall|i: int| 0 <= i < e.len() implies !is_blank(#[trigger] e[i]) by {
            if holds_entry(ls[0]) && i > 0 {
                assert(e[i] == rest[i - 1]);
            }
        }
    }
}

/// Whatever a file holds, what is read from it fits the cap and holds no blank entry.
pub proof fn lemma_parsed_fits(text: Seq<char>, limit: nat)
    ensures
        fits(parsed(text, limit), limit),
{
    lemma_entries_of_unblank(lines(text));
}

proof fn lemma_lines_of_line(line: Seq<char>, rest: Seq<char>)
    requires
        forall|i: int| 0 <= i < line.len() ==> #[trigger] line[i] != '\n' && line[i] != '\r',
    ensures
        lines(line.push('\n') + rest) == seq![line] + lines(rest),
{
    let text = line.push('\n') + rest;
    lemma_newline_at_first(text, line.len() as int);
    assert(text.take(line.len() as int) =~= line);
    assert(text.skip(line.len() + 1 as int) =~= rest);
    if line.len() > 0 {
        assert(line.last() == line[line.len() - 1]);
    }
    assert(strip_cr(line) == line);
}

proof fn lemma_lines_of_body(list: Seq<Seq<char>>)
    ensures
        lines(body(list)) == list.map_values(|e: Seq<char>| escaped(e)),
    decreases list.len(),
{
    if list.len() == 0 {
        assert(lines(body(list)) =~= list.map_values(|e: Seq<char>| escaped(e)));
    } else {
        let line = escaped(list[0]);
        lemma_escaped_is_one_line(list[0]);
        lemma_lines_of_line(line, body(list.skip(1)));
        lemma_lines_of_body(list.skip(1));
        assert(list.skip(1).map_values(|e: Seq<char>| escaped(e)) =~= list.map_values(
            |e: Seq<char>| escaped(e),
        ).skip(1));
        assert(seq![line] + list.map_values(|e: Seq<char>| escaped(e)).skip(1) =~= list.map_values(
            |e: Seq<char>| escaped(e),
        ));
    }
}

proof fn lemma_entries_of_escaped(list: Seq<Seq<char>>)
    requires
        forall|i: int| 0 <= i < list.len() ==> !is_blank(#[trigger] list[i]),
        forall|i: int| 0 <= i < list.len() ==> (#[trigger] list[i]).len() > 0 && list[i][0] != '#',
    ensures
        entries_of(list.map_values(|e: Seq<char>| escaped(e))) == list,
    decreases list.len(),
{
    let ls = list.map_values(|e: Seq<char>| escaped(e));
    if list.len() == 0 {
        assert(ls =~= Seq::<Seq<char>>::empty());
        assert(entries_of(ls) =~= list);
    } else {
        let e = list[0];
        assert(list[0] == e);
        assert(escaped(e) == escape_char(e[0]) + escaped(e.skip(1)));
        assert(escaped(e)[0] == escape_char(e[0])[0]);
        lemma_unescape_escape(e);
        assert(holds_entry(ls[0]));
        lemma_entries_of_escaped(list.skip(1));
        assert(list.skip(1).map_values(|e: Seq<char>| escaped(e)) =~= ls.skip(1));
        assert(seq![e] + list.skip(1) =~= list);
    }
}

/// Reading back a file written for a list gives the same list, newest first, for every list
/// the history can hold whose entries do not start with `#` (such a line reads as a comment).
pub proof fn lemma_file_round_trip(list: Seq<Seq<char>>, limit: nat)
    requires
        fits(list, limit),
        forall|i: int| 0 <= i < list.len() ==> (#[trigger] list[i])[0] != '#',
    ensures
        parsed(file_text(list), limit) == list,
{
    reveal_strlit("# 剪贴板历史，一行一条、最新的在最前");
    let h = header();
    assert(h[0] == '#');
    assert forall|i: int| 0 <= i < h.len() implies #[trigger] h[i] != '\n' && h[i] != '\r' by {}
    lemma_lines_of_line(h, body(list));
    lemma_lines_of_body(list);
    let ls = list.map_values(|e: Seq<char>| escaped(e));
    assert forall|i: int| 0 <= i < list.len() implies (#[trigger] list[i]).len() > 0 && list[i][0] != '#' by {
        if list[i].len() == 0 {
            assert(is_blank(list[i]));
        }
    }
    lemma_entries_of_escaped(list);
    assert((seq![h] + ls).skip(1) =~= ls);
    assert(!holds_entry((seq![h] + ls)[0]));
}

/// Remembering the same text twice leaves the list as remembering it once did.
pub proof fn lemma_remember_twice(list: Seq<Seq<char>>, limit: nat, text: Seq<char>)
    requires
        limit > 0,
    ensures
        remembered(remembered(list, limit, text), limit, text) == remembered(list, limit, text),
        !remember_changes(remembered(list, limit, text), text),
{
    let once = remembered(list, limit, text);
    if remember_changes(list, text) {
        let all = seq![text] + without(list, text);
        assert(all[0] == text);
        assert(once[0] == text);
    }
}

/// Remembered text is the newest entry; when remembering it changed the list, it appears
/// nowhere else in it.
pub proof fn lemma_remembered_once(list: Seq<Seq<char>>, limit: nat, text: Seq<char>)
    requires
        limit > 0,
        !is_blank(text),
    ensures
        remembered(list, limit, text).len() > 0,
        remembered(list, limit, text)[0] == text,
        remember_changes(list, text) ==> forall|i: int|
            0 < i < remembered(list, limit, text).len() ==> #[trigger] remembered(list, limit, text)[i]
                != text,
{
    let once = remembered(list, limit, text);
    if remember_changes(list, text) {
        lemma_without_excludes(list, text);
        let all = seq![text] + without(list, text);
        assert forall|i: int| 0 < i < once.len() implies #[trigger] once[i] != text by {
            assert(once[i] == all[i]);
            assert(all[i] == without(list, text)[i - 1]);
        }
    }
}

proof fn lemma_without_unique(list: Seq<Seq<char>>, text: Seq<char>)
    requires
        list.no_duplicates(),
    ensures
        without(list, text).no_duplicates(),
    decreases list.len(),
{
    if list.len() > 0 {
        let tail = list.skip(1);
        assert(tail.no_duplicates()) by {
            assert forall|i: int, j: int| 0 <= i < tail.len() && 0 <= j < tail.len() && i != j implies tail[i]
                != tail[j] by {
                assert(tail[i] == list[i + 1] && tail[j] == list[j + 1]);
            }
        }
        lemma_without_unique(tail, text);
        lemma_without_excludes(tail, text);
        let rest = without(tail, text);
        if list[0] != text {
            let w = without(list, text);
            assert(w == seq![list[0]] + rest);
            assert forall|i: int, j: int| 0 <= i < w.len() && 0 <= j < w.len() && i != j implies w[i] != w[j] by {
                if i > 0 && j > 0 {
                    assert(w[i] == rest[i - 1] && w[j] == rest[j - 1]);
                } else if i == 0 {
                    assert(w[j] == rest[j - 1]);
                    assert(tail.contains(rest[j - 1]));
                    let k = choose|k: int| 0 <= k < tail.len() && tail[k] == rest[j - 1];
                    assert(list[k + 1] == tail[k]);
                } else {
                    assert(w[i] == rest[i - 1]);
                    assert(tail.contains(rest[i - 1]));
                    let k = choose|k: int| 0 <= k < tail.len() && tail[k] == rest[i - 1];
                    assert(list[k + 1] == tail[k]);
                }
            }
        }
    }
}

/// A history without repeated entries stays so after remembering any text: the text moves
/// to the front instead of being added twice.
pub proof fn lemma_remember_keeps_unique(list: Seq<Seq<char>>, limit: nat, text: Seq<char>)
    requires
        list.no_duplicates(),
    ensures
        remembered(list, limit, text).no_duplicates(),
{
    if remember_changes(list, text) {
        lemma_without_unique(list, text);
        lemma_without_excludes(list, text);
        let w = without(list, text);
        let all = seq![text] + w;
        assert forall|i: int, j: int| 0 <= i < all.len() && 0 <= j < all.len() && i != j implies all[i] != all[j] by {
            if i > 0 && j > 0 {
                assert(all[i] == w[i - 1] && all[j] == w[j - 1]);
            } else if i == 0 {
                assert(all[j] == w[j - 1]);
            } else {
                assert(all[i] == w[i - 1]);
            }
        }
        let once = capped(all, limit);
        assert forall|i: int, j: int| 0 <= i < once.len() && 0 <= j < once.len() && i != j implies once[i]
            != once[j] by {
            assert(once[i] == all[i] && once[j] == all[j]);
        }
    }
}

} // verus!
