//! The fingers on the keyboard, each followed on its own, and what lifting one fires.
//!
//! When typing fast the contact times of two thumbs overlap; keeping only "the key that is
//! down" would let the second finger push the first out and lose both letters. So every
//! finger is tracked by its pointer id, and each event only touches that finger's record.
//!
//! Where the finger is (coordinates, distances) is the caller's part: a press carries it
//! as an opaque `geometry`, and the rules that need a distance take its verdict as a flag.

use vstd::prelude::*;
use crate::action::{repeats, KeyId};
use crate::chooser::{fired, spec_fired, DEFAULT_CHOICE};
use crate::fingers::{
    distinct, lemma_fingers_view, lemma_press_of_first, lemma_press_of_none, lemma_press_of_update, press_of, Finger, Fingers,
};

verus! {

broadcast use lemma_fingers_view;

/// One finger on the keyboard.
#[derive(Debug)]
pub struct Press<G> {
    /// Android's pointer id.
    pub pointer: i32,
    /// The key under the finger when it went down (`None`: between keys).
    pub key: Option<KeyId>,
    /// The symbol in that key's corner, if any.
    pub hint: Option<char>,
    /// The finger slid off: this is no longer a tap.
    pub sliding: bool,
    /// A long press opened the row of choices (upper case / symbol / lower case).
    pub choosing: bool,
    /// Which item of that row is chosen.
    pub choice: usize,
    /// A drag on the space bar is moving the cursor.
    pub cursor_started: bool,
    /// An upward swipe on Backspace: lifting clears everything before the cursor.
    pub clearing: bool,
    /// A leftward swipe on a clipboard entry: lifting deletes it.
    pub deleting: bool,
    /// A vertical drag scrolls the clipboard or emoji list.
    pub scrolling: bool,
    /// A gesture was started at some point (even if taken back): lifting is no tap.
    pub gestured: bool,
    /// The key already repeated while held: lifting does not fire it once more.
    pub repeated: bool,
    /// Where the finger is, as the caller keeps it.
    pub geometry: G,
}

impl<G> Press<G> {
    /// A finger that just went down on `key` (no gesture yet, the row would start on the
    /// symbol).
    pub fn new(pointer: i32, key: Option<KeyId>, hint: Option<char>, geometry: G) -> (press: Press<G>)
        ensures
            press.pointer == pointer,
            press.key == key,
            press.hint == hint,
            !press.sliding && !press.choosing && !press.cursor_started,
            !press.clearing && !press.deleting && !press.scrolling,
            !press.gestured && !press.repeated,
            press.choice == DEFAULT_CHOICE,
            press.geometry == geometry,
    {
        Press {
            pointer,
            key,
            hint,
            sliding: false,
            choosing: false,
            choice: DEFAULT_CHOICE,
            cursor_started: false,
            clearing: false,
            deleting: false,
            scrolling: false,
            gestured: false,
            repeated: false,
            geometry,
        }
    }
}

/// What lifting a finger fires.
#[derive(Debug, Clone, Copy, PartialEq, Eq, Structural)]
pub enum Release {
    /// A key was pressed.
    Key(KeyId),
    /// Clear everything before the cursor (Backspace swiped up).
    ClearToStart,
    /// Delete the clipboard entry at this index (swiped left on it).
    DeleteClipboard(usize),
}

impl<G> Finger for Press<G> {
    open spec fn finger(&self) -> i32 {
        self.pointer
    }

    fn pointer_id(&self) -> (pointer: i32) {
        self.pointer
    }
}

/// The key a finger still holds: none once it slid off or turned into a gesture.
pub open spec fn holds<G>(press: Press<G>) -> Option<KeyId> {
    if !press.sliding && !press.choosing && !press.cursor_started && !press.gestured {
        press.key
    } else {
        None
    }
}

/// What lifting `ended` fires. The row of choices fires the chosen item; a key that
/// repeated, a cursor drag, a gesture taken back fire nothing; an upward swipe on
/// Backspace clears to the start; a leftward swipe on a clipboard entry deletes it;
/// otherwise the key fires if the finger did not slide off and is still on it (or within
/// the touch slop of where it went down: `still_on_key`).
pub open spec fn spec_release<G>(ended: Press<G>, still_on_key: bool) -> Option<Release> {
    if ended.choosing {
        match (ended.key, ended.hint) {
            (Some(KeyId::Letter(letter)), Some(hint)) => Some(Release::Key(spec_fired(letter, hint, ended.choice))),
            _ => None,
        }
    } else if ended.repeated || ended.cursor_started {
        None
    } else if ended.clearing {
        Some(Release::ClearToStart)
    } else if ended.deleting {
        match ended.key {
            Some(KeyId::Clipboard(index)) => Some(Release::DeleteClipboard(index)),
            _ => None,
        }
    } else if ended.gestured {
        None
    } else {
        match ended.key {
            Some(key) => if !ended.sliding && still_on_key {
                Some(Release::Key(key))
            } else {
                None
            },
            None => None,
        }
    }
}

/// What lifting `ended` fires (see [`spec_release`]).
pub fn release<G>(ended: &Press<G>, still_on_key: bool) -> (fires: Option<Release>)
    ensures
        fires == spec_release(*ended, still_on_key),
{
    if ended.choosing {
        return match (ended.key, ended.hint) {
            (Some(KeyId::Letter(letter)), Some(hint)) => Some(Release::Key(fired(letter, hint, ended.choice))),
            _ => None,
        };
    }
    if ended.repeated || ended.cursor_started {
        return None;
    }
    if ended.clearing {
        return Some(Release::ClearToStart);
    }
    if ended.deleting {
        return match ended.key {
            Some(KeyId::Clipboard(index)) => Some(Release::DeleteClipboard(index)),
            _ => None,
        };
    }
    if ended.gestured {
        return None;
    }
    match ended.key {
        Some(key) => if !ended.sliding && still_on_key {
            Some(Release::Key(key))
        } else {
            None
        },
        None => None,
    }
}

/// Whether a finger that moved so that `hit` is now under it has slid off its key: not
/// while a gesture runs (choosing, moving the cursor, or one started earlier), and not
/// while it is still on the same key.
pub open spec fn slides_off<G>(press: Press<G>, hit: Option<KeyId>) -> bool {
    !press.choosing && !press.cursor_started && !press.gestured && (press.key is None || hit != press.key)
}

/// What one move of a finger measured, as the caller judged it from the coordinates.
#[derive(Debug, Clone, Copy, PartialEq, Eq, Structural)]
pub struct Motion {
    /// The key under the finger now (`None`: between keys).
    pub hit: Option<KeyId>,
    /// The choice the sideways offset picks in the row of choices.
    pub pick: usize,
    /// The finger is far enough above where it went down to clear (on Backspace).
    pub up_swiped: bool,
    /// The finger left the scroll slop mostly vertically (on a list cell).
    pub vertical: bool,
    /// The finger moved vertically since the last event.
    pub stepped: bool,
    /// The finger is far enough left of where it went down to delete (on a list cell).
    pub left_swiped: bool,
    /// The sideways offset is past the cursor dead zone (on the space bar).
    pub past_dead_zone: bool,
    /// The sideways offset points right.
    pub rightward: bool,
}

/// What a move fires while the finger is still down.
#[derive(Debug, Clone, Copy, PartialEq, Eq, Structural)]
pub enum MoveFire {
    /// The clipboard or emoji list under the finger scrolls with it (by the vertical step
    /// the caller measured).
    Scroll,
    /// The space-bar drag crossed the dead zone: move the cursor one step at once
    /// (positive: right).
    MoveCursor(isize),
}

/// A clipboard or emoji cell: a vertical drag scrolls the list, a leftward one deletes.
pub open spec fn is_list_key(key: Option<KeyId>) -> bool {
    key matches Some(KeyId::Clipboard(_)) || key matches Some(KeyId::Emoji(_))
}

/// What a move does to a press, and what it fires. With the row of choices open, the
/// finger only picks in the row. Otherwise: on Backspace, being swiped up arms clearing
/// (and swiping back disarms it); on a list cell, a drag that turned vertical scrolls for
/// good, else a leftward swipe arms deleting (taken back by swiping back); any of these marks
/// the press as a gesture for good; on the space bar, crossing the dead zone starts moving
/// the cursor and fires its first step; a finger that is neither of these and is no longer
/// on its key has slid off, for good. `geometry` replaces the caller's record of where the
/// finger is.
pub open spec fn spec_moved<G>(press: Press<G>, m: Motion, geometry: G) -> (Press<G>, Option<MoveFire>) {
    if press.choosing {
        (Press { choice: m.pick, geometry, ..press }, None)
    } else {
        let clearing = if press.key == Some(KeyId::Backspace) {
            m.up_swiped
        } else {
            press.clearing
        };
        let list = is_list_key(press.key);
        let scrolls = list && (press.scrolling || m.vertical);
        let deleting = if list && !scrolls {
            m.left_swiped
        } else {
            press.deleting
        };
        let scrolling = press.scrolling || scrolls;
        let gestured = press.gestured || clearing || deleting || scrolling;
        let next = Press { clearing, deleting, scrolling, gestured, geometry, ..press };
        if scrolls && m.stepped {
            (next, Some(MoveFire::Scroll))
        } else if press.key == Some(KeyId::Space) && !press.cursor_started && m.past_dead_zone {
            (
                Press { cursor_started: true, ..next },
                Some(MoveFire::MoveCursor(if m.rightward { 1isize } else { -1isize })),
            )
        } else {
            (Press { sliding: next.sliding || slides_off(next, m.hit), ..next }, None)
        }
    }
}

/// What a move does to a press (see [`spec_moved`]).
pub fn moved<G>(press: Press<G>, m: Motion, geometry: G) -> (next: (Press<G>, Option<MoveFire>))
    ensures
        next == spec_moved(press, m, geometry),
{
    let mut p = press;
    p.geometry = geometry;
    if p.choosing {
        p.choice = m.pick;
        return (p, None);
    }
    let backspace = match p.key {
        Some(KeyId::Backspace) => true,
        _ => false,
    };
    if backspace {
        p.clearing = m.up_swiped;
    }
    let list = match p.key {
        Some(KeyId::Clipboard(_)) | Some(KeyId::Emoji(_)) => true,
        _ => false,
    };
    let scrolls = list && (p.scrolling || m.vertical);
    if list && !scrolls {
        p.deleting = m.left_swiped;
    }
    if scrolls {
        p.scrolling = true;
    }
    if p.clearing || p.deleting || p.scrolling {
        p.gestured = true;
    }
    if scrolls && m.stepped {
        return (p, Some(MoveFire::Scroll));
    }
    let space = match p.key {
        Some(KeyId::Space) => true,
        _ => false,
    };
    if space && !p.cursor_started && m.past_dead_zone {
        p.cursor_started = true;
        let first: isize = if m.rightward { 1 } else { -1 };
        return (p, Some(MoveFire::MoveCursor(first)));
    }
    if slid_off(&p, m.hit) {
        p.sliding = true;
    }
    (p, None)
}

/// A press on a letter or symbol key that is still a plain press (no row of choices, no
/// gesture of any kind).
pub open spec fn plain_typing<G>(press: Press<G>) -> bool {
    &&& (press.key matches Some(KeyId::Letter(_)) || press.key matches Some(KeyId::Literal(_)))
    &&& !press.choosing && !press.cursor_started && !press.gestured
    &&& !press.clearing && !press.deleting && !press.scrolling
}

/// Sliding off a letter or symbol key cancels the press for good: once a move finds
/// another key (or a gap) under the finger, every later move keeps it cancelled, and
/// lifting fires nothing, even back on the key.
pub proof fn lemma_sliding_off_cancels<G>(press: Press<G>, m: Motion, geometry: G, still_on_key: bool)
    requires
        plain_typing(press),
        press.sliding || m.hit != press.key,
    ensures
        plain_typing(spec_moved(press, m, geometry).0),
        spec_moved(press, m, geometry).0.sliding,
        spec_moved(press, m, geometry).1 is None,
        spec_release(spec_moved(press, m, geometry).0, still_on_key) is None,
{
}

/// A finger that stays on its letter or symbol key (a wobble) is still pressing it: a
/// move fires nothing and lifting on the key types it.
pub proof fn lemma_staying_on_the_key_keeps_the_press<G>(press: Press<G>, m: Motion, g: G)
    requires
        plain_typing(press),
        !press.sliding,
        !press.repeated,
        m.hit == press.key,
    ensures
        plain_typing(spec_moved(press, m, g).0),
        !spec_moved(press, m, g).0.sliding,
        spec_moved(press, m, g).1 is None,
        spec_release(spec_moved(press, m, g).0, true) == Some(Release::Key(press.key->0)),
{
}

/// A letter or symbol press that slid off its key.
pub open spec fn cancelled<G>(press: Press<G>) -> bool {
    plain_typing(press) && press.sliding
}

/// A cancelled press stays cancelled whatever happens to its finger before it lifts, and
/// lifting it fires nothing: a move keeps it cancelled and fires nothing; a new position
/// or a repeat mark changes nothing of it; it holds no key, so a beat neither repeats it
/// nor opens its row of choices (see [`Fingers::repeat`] and [`Fingers::begin_choice`]).
/// Each of those acts on this finger's record alone: the other fingers stay as they were.
pub proof fn lemma_cancelled_stays_cancelled<G>(press: Press<G>, m: Motion, g: G, still_on_key: bool)
    requires
        cancelled(press),
    ensures
        cancelled(spec_moved(press, m, g).0),
        spec_moved(press, m, g).1 is None,
        cancelled(Press { geometry: g, ..press }),
        cancelled(Press { repeated: true, ..press }),
        holds(press) is None,
        !(press.key matches Some(KeyId::Letter(_)) && press.hint is Some && !press.sliding),
        spec_release(press, still_on_key) is None,
{
    lemma_sliding_off_cancels(press, m, g, still_on_key);
}

/// Swiping up on Backspace arms "clear everything before the cursor", which lifting then
/// fires wherever the finger is; swiping back down takes it back, and lifting after that
/// fires nothing (not even one Backspace).
pub proof fn lemma_swipe_up_clears<G>(press: Press<G>, up: Motion, back: Motion, g1: G, g2: G, still_on_key: bool)
    requires
        press.key == Some(KeyId::Backspace),
        !press.choosing && !press.repeated && !press.cursor_started,
        up.up_swiped,
        !back.up_swiped,
    ensures
        spec_release(spec_moved(press, up, g1).0, still_on_key) == Some(Release::ClearToStart),
        spec_release(spec_moved(spec_moved(press, up, g1).0, back, g2).0, still_on_key) is None,
{
}

/// A drag on the space bar fires its first cursor step, towards the drag, the moment it
/// crosses the dead zone, and lifting it afterwards types no space.
pub proof fn lemma_space_drag_steps_at_once<G>(press: Press<G>, m: Motion, g: G, still_on_key: bool)
    requires
        press.key == Some(KeyId::Space),
        !press.choosing && !press.cursor_started,
        m.past_dead_zone,
    ensures
        spec_moved(press, m, g).1 == Some(MoveFire::MoveCursor(if m.rightward { 1isize } else { -1isize })),
        spec_release(spec_moved(press, m, g).0, still_on_key) is None,
{
}

/// Holding Backspace repeats it on every beat: after a beat the finger still holds
/// Backspace (so the next beat fires again), and lifting it then fires nothing more.
pub proof fn lemma_holding_backspace_repeats<G>(press: Press<G>, still_on_key: bool)
    requires
        holds(press) == Some(KeyId::Backspace),
    ensures
        holds(Press { repeated: true, ..press }) == Some(KeyId::Backspace),
        spec_release(Press { repeated: true, ..press }, still_on_key) is None,
{
}

/// What lifting a finger fires, by what the finger did: a plain press fires its key when it
/// is lifted on it and never slid off; the row of choices fires the letter in upper case,
/// the corner symbol, or the letter itself, as chosen; a repeat or a cursor drag fires
/// nothing more; an armed clear fires the clear; an armed delete on a clipboard entry
/// deletes that entry; a gesture taken back fires nothing.
pub proof fn lemma_lifting_fires<G>(p: Press<G>, still_on_key: bool)
    ensures
        !p.choosing && !p.repeated && !p.cursor_started && !p.clearing && !p.deleting && !p.gestured
            ==> spec_release(p, still_on_key) == (if p.key is Some && !p.sliding && still_on_key {
            Some(Release::Key(p.key->0))
        } else {
            None
        }),
        p.choosing && p.hint is Some ==> spec_release(p, still_on_key) == match p.key {
            Some(KeyId::Letter(l)) => Some(
                Release::Key(
                    if p.choice == 0 {
                        KeyId::Literal(crate::chooser::ascii_upper(l))
                    } else if p.choice == 2 {
                        KeyId::Letter(l)
                    } else {
                        KeyId::Literal(p.hint->0)
                    },
                ),
            ),
            _ => None,
        },
        p.choosing && p.hint is None ==> spec_release(p, still_on_key) is None,
        !p.choosing && (p.repeated || p.cursor_started) ==> spec_release(p, still_on_key) is None,
        !p.choosing && !p.repeated && !p.cursor_started && p.clearing ==> spec_release(p, still_on_key) == Some(
            Release::ClearToStart,
        ),
        !p.choosing && !p.repeated && !p.cursor_started && !p.clearing && p.deleting ==> spec_release(p, still_on_key)
            == match p.key {
            Some(KeyId::Clipboard(i)) => Some(Release::DeleteClipboard(i)),
            _ => None,
        },
        !p.choosing && !p.repeated && !p.cursor_started && !p.clearing && !p.deleting && p.gestured ==> spec_release(
            p,
            still_on_key,
        ) is None,
{
}

/// On a clipboard or emoji cell a vertical drag turns into scrolling for good (and is no
/// tap), scrolling on each move that moved; short of that, a leftward swipe arms deleting
/// and swiping back disarms it. With the row of choices open a move only picks.
pub proof fn lemma_list_cells_and_choices<G>(p: Press<G>, m: Motion, g: G)
    ensures
        !p.choosing && is_list_key(p.key) && (p.scrolling || m.vertical) ==> {
            &&& spec_moved(p, m, g).0.scrolling
            &&& spec_moved(p, m, g).0.gestured
            &&& spec_moved(p, m, g).0.deleting == p.deleting
            &&& (spec_moved(p, m, g).1 == if m.stepped { Some(MoveFire::Scroll) } else { None })
        },
        !p.choosing && is_list_key(p.key) && !p.scrolling && !m.vertical ==> {
            &&& spec_moved(p, m, g).0.deleting == m.left_swiped
            &&& !spec_moved(p, m, g).0.scrolling
            &&& (m.left_swiped ==> spec_moved(p, m, g).0.gestured)
        },
        p.choosing ==> spec_moved(p, m, g) == (Press { choice: m.pick, geometry: g, ..p }, None::<MoveFire>),
        spec_moved(p, m, g).0.pointer == p.pointer && spec_moved(p, m, g).0.key == p.key,
{
}

/// Whether a finger that moved so that `hit` is under it has slid off its key.
pub fn slid_off<G>(press: &Press<G>, hit: Option<KeyId>) -> (off: bool)
    ensures
        off == slides_off(*press, hit),
{
    if press.choosing || press.cursor_started || press.gestured {
        return false;
    }
    match (press.key, hit) {
        (None, _) => true,
        (Some(k), Some(h)) => k != h,
        (Some(_), None) => true,
    }
}

/// The fingers on the keyboard, in the order they went down.
pub type Presses<G> = Fingers<Press<G>>;

impl<G> Fingers<Press<G>> {
    /// The key finger `pointer` still holds (for repeating): none once it slid off or
    /// turned into a gesture, or when that finger is not down.
    pub fn held(&self, pointer: i32) -> (key: Option<KeyId>)
        ensures
            key == (match press_of(self@, pointer) {
                Some(p) => holds(p),
                None => None,
            }),
    {
        match self.get(pointer) {
            Some(p) => if !p.sliding && !p.choosing && !p.cursor_started && !p.gestured {
                p.key
            } else {
                None
            },
            None => None,
        }
    }

    /// Finger `pointer` held its key long enough: on a letter key with a corner symbol that
    /// is still a plain press, open the row of choices (starting on the symbol). Returns
    /// whether the row is open (it stays open once opened).
    pub fn begin_choice(&mut self, pointer: i32) -> (open: bool)
        requires
            old(self).wf(),
        ensures
            final(self).wf(),
            open == (match press_of(old(self)@, pointer) {
                Some(p) => p.choosing || (p.key matches Some(KeyId::Letter(_)) && p.hint is Some && !p.sliding
                    && !p.cursor_started && !p.gestured),
                None => false,
            }),
            forall|q: i32| q != pointer ==> #[trigger] press_of(final(self)@, q) == press_of(old(self)@, q),
            match press_of(old(self)@, pointer) {
                Some(p) => if open && !p.choosing {
                    press_of(final(self)@, pointer) == Some(Press { choosing: true, choice: DEFAULT_CHOICE, ..p })
                } else {
                    press_of(final(self)@, pointer) == Some(p)
                },
                None => final(self)@ == old(self)@,
            },
    {
        let i = match self.position(pointer) {
            Some(i) => i,
            None => {
                proof {
                    lemma_press_of_none(self@, pointer);
                }
                return false;
            },
        };
        proof {
            lemma_press_of_first(self@, pointer, i as int);
        }
        if self.presses[i].choosing {
            return true;
        }
        let letter = match self.presses[i].key {
            Some(KeyId::Letter(_)) => true,
            _ => false,
        };
        if !letter || self.presses[i].hint.is_none() || self.presses[i].sliding || self.presses[i].cursor_started
            || self.presses[i].gestured {
            return false;
        }
        let mut press = self.presses.remove(i);
        let ghost removed = self@;
        press.choosing = true;
        press.choice = DEFAULT_CHOICE;
        self.presses.insert(i, press);
        proof {
            let before = old(self)@;
            assert(self@ =~= before.update(i as int, press));
            lemma_press_of_update(before, i as int, press);
        }
        true
    }

    /// Notes that finger `pointer`'s key repeated: lifting it will fire nothing more.
    pub fn note_repeat(&mut self, pointer: i32)
        requires
            old(self).wf(),
        ensures
            final(self).wf(),
            forall|q: i32| q != pointer ==> #[trigger] press_of(final(self)@, q) == press_of(old(self)@, q),
            match press_of(old(self)@, pointer) {
                Some(p) => press_of(final(self)@, pointer) == Some(Press { repeated: true, ..p }),
                None => final(self)@ == old(self)@,
            },
    {
        let i = match self.position(pointer) {
            Some(i) => i,
            None => {
                proof {
                    lemma_press_of_none(self@, pointer);
                }
                return;
            },
        };
        proof {
            lemma_press_of_first(self@, pointer, i as int);
        }
        let mut press = self.presses.remove(i);
        press.repeated = true;
        self.presses.insert(i, press);
        proof {
            let before = old(self)@;
            assert(self@ =~= before.update(i as int, press));
            lemma_press_of_update(before, i as int, press);
        }
    }

    /// Finger `pointer` moved (see [`spec_moved`]): its press is updated and what the move
    /// fires is returned; the other fingers stay as they were. Nothing happens when that
    /// finger is not down on the keyboard.
    pub fn moved(&mut self, pointer: i32, m: Motion, geometry: G) -> (fires: Option<MoveFire>)
        requires
            old(self).wf(),
        ensures
            final(self).wf(),
            forall|q: i32| q != pointer ==> #[trigger] press_of(final(self)@, q) == press_of(old(self)@, q),
            match press_of(old(self)@, pointer) {
                Some(p) => {
                    &&& press_of(final(self)@, pointer) == Some(spec_moved(p, m, geometry).0)
                    &&& fires == spec_moved(p, m, geometry).1
                },
                None => final(self)@ == old(self)@ && fires is None,
            },
    {
        let i = match self.position(pointer) {
            Some(i) => i,
            None => {
                proof {
                    lemma_press_of_none(self@, pointer);
                }
                return None;
            },
        };
        proof {
            lemma_press_of_first(self@, pointer, i as int);
        }
        let press = self.presses.remove(i);
        let (next, fires) = moved(press, m, geometry);
        self.presses.insert(i, next);
        proof {
            let before = old(self)@;
            assert(self@ =~= before.update(i as int, next));
            lemma_press_of_update(before, i as int, next);
        }
        fires
    }

    /// Replaces the caller's record of where finger `pointer` is; nothing else changes.
    pub fn set_geometry(&mut self, pointer: i32, geometry: G)
        requires
            old(self).wf(),
        ensures
            final(self).wf(),
            forall|q: i32| q != pointer ==> #[trigger] press_of(final(self)@, q) == press_of(old(self)@, q),
            match press_of(old(self)@, pointer) {
                Some(p) => press_of(final(self)@, pointer) == Some(Press { geometry, ..p }),
                None => final(self)@ == old(self)@,
            },
    {
        let i = match self.position(pointer) {
            Some(i) => i,
            None => {
                proof {
                    lemma_press_of_none(self@, pointer);
                }
                return;
            },
        };
        proof {
            lemma_press_of_first(self@, pointer, i as int);
        }
        let mut press = self.presses.remove(i);
        press.geometry = geometry;
        self.presses.insert(i, press);
        proof {
            let before = old(self)@;
            assert(self@ =~= before.update(i as int, press));
            lemma_press_of_update(before, i as int, press);
        }
    }

    /// One beat of a held finger `pointer`: when the key it still holds repeats (only
    /// Backspace does), the press is marked as repeated, so that lifting fires nothing more,
    /// and the key is returned to be carried out once more; otherwise nothing changes.
    pub fn repeat(&mut self, pointer: i32) -> (key: Option<KeyId>)
        requires
            old(self).wf(),
        ensures
            final(self).wf(),
            forall|q: i32| q != pointer ==> #[trigger] press_of(final(self)@, q) == press_of(old(self)@, q),
            key == (match press_of(old(self)@, pointer) {
                Some(p) => if holds(p) == Some(KeyId::Backspace) {
                    Some(KeyId::Backspace)
                } else {
                    None
                },
                None => None,
            }),
            match (press_of(old(self)@, pointer), key) {
                (Some(p), Some(_)) => press_of(final(self)@, pointer) == Some(Press { repeated: true, ..p }),
                _ => final(self)@ == old(self)@,
            },
    {
        let key = match self.held(pointer) {
            Some(k) => k,
            None => return None,
        };
        if !repeats(key) {
            return None;
        }
        self.note_repeat(pointer);
        Some(key)
    }

    /// The press the key caps show as held: the latest finger that is on a key and did not
    /// slide off (only one key can be drawn pressed).
    pub fn shown(&self) -> (press: Option<&Press<G>>)
        ensures
            match press {
                Some(p) => exists|i: int|
                    0 <= i < self@.len() && self@[i] == *p && !p.sliding && p.key is Some && forall|j: int|
                        i < j < self@.len() ==> (#[trigger] self@[j]).sliding || self@[j].key is None,
                None => forall|j: int| 0 <= j < self@.len() ==> (#[trigger] self@[j]).sliding || self@[j].key is None,
            },
    {
        let mut i = self.presses.len();
        while i > 0
            invariant
                i <= self.presses.len(),
                forall|j: int| i <= j < self@.len() ==> (#[trigger] self@[j]).sliding || self@[j].key is None,
            decreases i,
        {
            i -= 1;
            let p = &self.presses[i];
            if !p.sliding && p.key.is_some() {
                return Some(p);
            }
        }
        None
    }
}

} // verus!
