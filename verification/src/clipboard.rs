//! The clipboard history as the keyboard drives it: every copy is remembered, clearing
//! takes two taps, and what was just cleared does not come straight back.
//!
//! Clearing everything on one slip of the finger is too harsh, so the first tap only arms
//! the button ("tap again to clear") and a second tap within [`CLEAR_CONFIRM_WINDOW_MS`]
//! clears. The shell reports the system clipboard each time the keyboard shows; the text
//! that was newest when the history was cleared is ignored until the clipboard holds
//! something else. Time is passed in by the caller, in milliseconds of a monotonic clock.

use vstd::prelude::*;
use crate::recent::{Recent, remembered, remember_changes, views};
use crate::text::same_text;

verus! {

/// How long after the first tap a second one confirms clearing (milliseconds).
pub const CLEAR_CONFIRM_WINDOW_MS: u64 = 5000;

/// What a tap on "clear" did.
#[derive(Debug, Clone, Copy, PartialEq, Eq, Structural)]
pub enum ClearStep {
    /// The button is armed: the next tap within the window clears.
    Armed,
    /// The history was cleared; `true` when there was anything in it.
    Cleared(bool),
}

/// The state a clipboard history is in, as the contracts see it.
pub struct ClipboardView {
    /// The entries, newest first.
    pub entries: Seq<Seq<char>>,
    /// The cap on the entries.
    pub limit: nat,
    /// The text the last clear removed from the front, ignored until something else comes.
    pub cleared: Option<Seq<char>>,
    /// When the clear button was armed, if it is.
    pub armed_at: Option<u64>,
}

/// Whether the arming made at `at` has run out at `now`.
pub open spec fn ran_out(at: u64, now: u64) -> bool {
    now >= at && now - at >= CLEAR_CONFIRM_WINDOW_MS
}

/// The state after noting that the clipboard holds `text`.
pub open spec fn after_note(v: ClipboardView, text: Seq<char>) -> ClipboardView {
    if v.cleared == Some(text) {
        v
    } else {
        ClipboardView { entries: remembered(v.entries, v.limit, text), cleared: None, ..v }
    }
}

/// Whether noting `text` changes the entries.
pub open spec fn note_changes(v: ClipboardView, text: Seq<char>) -> bool {
    v.cleared != Some(text) && remember_changes(v.entries, text)
}

/// The state once an arming that ran out by `now` is dropped.
pub open spec fn after_expiry(v: ClipboardView, now: u64) -> ClipboardView {
    match v.armed_at {
        Some(at) => if ran_out(at, now) {
            ClipboardView { armed_at: None, ..v }
        } else {
            v
        },
        None => v,
    }
}

/// The state after tapping "clear" at `now`: a live arming makes this the confirming tap
/// (the history empties and its newest entry is remembered as just cleared), otherwise
/// the button is armed.
pub open spec fn after_clear_tap(v: ClipboardView, now: u64) -> ClipboardView {
    let w = after_expiry(v, now);
    if w.armed_at is Some {
        ClipboardView {
            entries: Seq::empty(),
            cleared: if w.entries.len() > 0 {
                Some(w.entries[0])
            } else {
                None
            },
            armed_at: None,
            ..w
        }
    } else {
        ClipboardView { armed_at: Some(now), ..w }
    }
}

/// The clipboard history the keyboard keeps.
#[derive(Debug)]
pub struct ClipboardHistory {
    recent: Recent,
    cleared: Option<String>,
    armed_at: Option<u64>,
}

impl ClipboardHistory {
    /// The state, as the contracts see it.
    pub closed spec fn view(&self) -> ClipboardView {
        ClipboardView {
            entries: self.recent@,
            limit: self.recent.spec_limit(),
            cleared: match self.cleared {
                Some(t) => Some(t@),
                None => None,
            },
            armed_at: self.armed_at,
        }
    }

    /// A history holding `recent`, with the button not armed and nothing just cleared.
    pub fn new(recent: Recent) -> (history: ClipboardHistory)
        ensures
            history.view().entries == recent@,
            history.view().limit == recent.spec_limit(),
            history.view().cleared is None,
            history.view().armed_at is None,
    {
        ClipboardHistory { recent, cleared: None, armed_at: None }
    }

    /// The entries, newest first.
    pub fn recent(&self) -> (recent: &Recent)
        ensures
            recent@ == self.view().entries,
            recent.spec_limit() == self.view().limit,
    {
        &self.recent
    }

    /// Whether the clear button is armed (its key cap then asks to confirm).
    pub fn armed(&self) -> (armed: bool)
        ensures
            armed == self.view().armed_at is Some,
    {
        self.armed_at.is_some()
    }

    /// The clipboard holds `text`: remember it, newest first, unless it is what the last
    /// clear removed (then nothing happens until the clipboard holds something else).
    /// Returns whether the entries changed (the file must then be written again).
    pub fn note(&mut self, text: &str) -> (changed: bool)
        ensures
            changed == note_changes(old(self).view(), text@),
            final(self).view() == after_note(old(self).view(), text@),
    {
        if let Some(cleared) = &self.cleared {
            if same_text(cleared.as_str(), text) {
                return false;
            }
        }
        self.cleared = None;
        self.recent.remember(text)
    }

    /// Drops an arming that ran out by `now`. Returns whether there was one (the key cap
    /// must then be drawn again).
    pub fn expire(&mut self, now: u64) -> (expired: bool)
        ensures
            expired == (old(self).view().armed_at matches Some(at) && ran_out(at, now)),
            final(self).view() == after_expiry(old(self).view(), now),
    {
        match self.armed_at {
            Some(at) => {
                if now >= at && now - at >= CLEAR_CONFIRM_WINDOW_MS {
                    self.armed_at = None;
                    true
                } else {
                    false
                }
            },
            None => false,
        }
    }

    /// A tap on "clear" at `now` (see [`after_clear_tap`]).
    pub fn tap_clear(&mut self, now: u64) -> (step: ClearStep)
        ensures
            final(self).view() == after_clear_tap(old(self).view(), now),
            step == (if after_expiry(old(self).view(), now).armed_at is Some {
                ClearStep::Cleared(old(self).view().entries.len() > 0)
            } else {
                ClearStep::Armed
            }),
    {
        self.expire(now);
        if self.armed_at.is_some() {
            self.armed_at = None;
            let entries = self.recent.entries();
            self.cleared = if entries.len() > 0 {
                Some(entries[0].clone())
            } else {
                None
            };
            let changed = self.recent.clear();
            return ClearStep::Cleared(changed);
        }
        self.armed_at = Some(now);
        ClearStep::Armed
    }

    /// Deletes the entry at `index` of the whole history. Returns whether there was one.
    pub fn delete(&mut self, index: usize) -> (changed: bool)
        ensures
            changed == (index < old(self).view().entries.len()),
            final(self).view() == (ClipboardView {
                entries: if changed {
                    old(self).view().entries.remove(index as int)
                } else {
                    old(self).view().entries
                },
                ..old(self).view()
            }),
    {
        self.recent.remove(index)
    }

    /// The entry at `index` of the whole history, if there is one.
    pub fn entry(&self, index: usize) -> (entry: Option<&String>)
        ensures
            match entry {
                Some(e) => index < self.view().entries.len() && e@ == self.view().entries[index as int],
                None => index >= self.view().entries.len(),
            },
    {
        let entries = self.recent.entries();
        if index < entries.len() {
            Some(&entries[index])
        } else {
            None
        }
    }
}

/// Two taps on "clear" within the window empty the history; a second tap after the window
/// has run out only arms the button again.
pub proof fn lemma_two_taps_clear(v: ClipboardView, first: u64, second: u64)
    requires
        v.armed_at is None,
        first <= second,
    ensures
        second - first < CLEAR_CONFIRM_WINDOW_MS ==> after_clear_tap(after_clear_tap(v, first), second).entries.len() == 0,
        second - first >= CLEAR_CONFIRM_WINDOW_MS ==> after_clear_tap(after_clear_tap(v, first), second).entries == v.entries
            && after_clear_tap(after_clear_tap(v, first), second).armed_at == Some(second),
{
}

/// What a confirmed clear removed from the front does not come back when the same clipboard
/// content is reported again; anything else is remembered as usual.
pub proof fn lemma_cleared_text_stays_out(v: ClipboardView, first: u64, second: u64, text: Seq<char>)
    requires
        v.armed_at is None,
        first <= second,
        second - first < CLEAR_CONFIRM_WINDOW_MS,
        v.entries.len() > 0,
        text == v.entries[0],
    ensures
        after_note(after_clear_tap(after_clear_tap(v, first), second), text).entries.len() == 0,
        !note_changes(after_clear_tap(after_clear_tap(v, first), second), text),
{
}

} // verus!
