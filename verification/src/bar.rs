//! Fingers on the candidate bar and on the expanded candidate panel: a tap commits what it
//! landed on, a drag only scrolls.
//!
//! Unlike the keys, a bar cell is no button to stay on: whether a finger still taps is
//! decided by whether it left the touch slop, which the caller measures and hands in as a
//! flag. A drag that went beyond it is only looking around, and lifting it commits nothing.

use vstd::prelude::*;
use crate::action::BarHitId;
use crate::fingers::{
    lemma_fingers_view, lemma_press_of_first, lemma_press_of_none, lemma_press_of_update, press_of, Finger,
    Fingers,
};

verus! {

broadcast use lemma_fingers_view;

/// One finger on the candidate bar.
#[derive(Debug)]
pub struct BarPress<G> {
    /// Android's pointer id.
    pub pointer: i32,
    /// What the finger landed on (`None`: between cells).
    pub hit: Option<BarHitId>,
    /// The finger left the touch slop: this is a drag, no tap.
    pub sliding: bool,
    /// Where the finger is, as the caller keeps it.
    pub geometry: G,
}

impl<G> Finger for BarPress<G> {
    open spec fn finger(&self) -> i32 {
        self.pointer
    }

    fn pointer_id(&self) -> (pointer: i32) {
        self.pointer
    }
}

impl<G> BarPress<G> {
    /// A finger that just went down on `hit`.
    pub fn new(pointer: i32, hit: Option<BarHitId>, geometry: G) -> (press: BarPress<G>)
        ensures
            press == (BarPress { pointer, hit, sliding: false, geometry }),
    {
        BarPress { pointer, hit, sliding: false, geometry }
    }
}

/// A move: a finger that left the touch slop (`beyond_slop`) is dragging for good; a
/// dragging finger that moved since the last event (`stepped`) scrolls the bar, by the
/// step the caller measured (the `bool`).
pub open spec fn spec_bar_moved<G>(press: BarPress<G>, beyond_slop: bool, stepped: bool, geometry: G) -> (
    BarPress<G>,
    bool,
) {
    let sliding = press.sliding || beyond_slop;
    (BarPress { sliding, geometry, ..press }, sliding && stepped)
}

/// What a move does to a bar press (see [`spec_bar_moved`]).
pub fn bar_moved<G>(press: BarPress<G>, beyond_slop: bool, stepped: bool, geometry: G) -> (next: (
    BarPress<G>,
    bool,
))
    ensures
        next == spec_bar_moved(press, beyond_slop, stepped, geometry),
{
    let sliding = press.sliding || beyond_slop;
    (BarPress { pointer: press.pointer, hit: press.hit, sliding, geometry }, sliding && stepped)
}

/// What lifting `ended` fires: what it landed on, when it never dragged and is lifted on that
/// target (or within the touch slop of where it went down: `still_on_target`); otherwise
/// nothing, since a drag was only looking.
pub open spec fn spec_bar_release<G>(ended: BarPress<G>, still_on_target: bool) -> Option<BarHitId> {
    if !ended.sliding && still_on_target {
        ended.hit
    } else {
        None
    }
}

/// What lifting a bar press fires (see [`spec_bar_release`]).
pub fn bar_release<G>(ended: &BarPress<G>, still_on_target: bool) -> (fires: Option<BarHitId>)
    ensures
        fires == spec_bar_release(*ended, still_on_target),
{
    if !ended.sliding && still_on_target {
        ended.hit
    } else {
        None
    }
}

/// The fingers on the candidate bar, in the order they went down.
pub type BarPresses<G> = Fingers<BarPress<G>>;

impl<G> Fingers<BarPress<G>> {
    /// Finger `pointer` moved on the bar (see [`spec_bar_moved`]): its press is updated and
    /// whether the bar scrolls is returned; the other fingers stay as they were. Nothing
    /// happens when that finger is not down on the bar.
    pub fn dragged(&mut self, pointer: i32, beyond_slop: bool, stepped: bool, geometry: G) -> (scrolls: bool)
        requires
            old(self).wf(),
        ensures
            final(self).wf(),
            forall|q: i32| q != pointer ==> #[trigger] press_of(final(self)@, q) == press_of(old(self)@, q),
            match press_of(old(self)@, pointer) {
                Some(p) => {
                    &&& press_of(final(self)@, pointer) == Some(spec_bar_moved(p, beyond_slop, stepped, geometry).0)
                    &&& scrolls == spec_bar_moved(p, beyond_slop, stepped, geometry).1
                },
                None => final(self)@ == old(self)@ && !scrolls,
            },
    {
        let i = match self.position(pointer) {
            Some(i) => i,
            None => {
                proof {
                    lemma_press_of_none(self@, pointer);
                }
                return false;
            },
        };
        proof {
            lemma_press_of_first(self@, pointer, i as int);
        }
        let press = self.presses.remove(i);
        let (next, scrolls) = bar_moved(press, beyond_slop, stepped, geometry);
        self.presses.insert(i, next);
        proof {
            let before = old(self)@;
            assert(self@ =~= before.update(i as int, next));
            lemma_press_of_update(before, i as int, next);
        }
        scrolls
    }
}

/// The one finger the expanded candidate panel follows.
#[derive(Debug)]
pub struct PanelPress<G> {
    /// Android's pointer id: events of other fingers are ignored.
    pub pointer: i32,
    /// The finger left the touch slop: this is a drag, no tap.
    pub sliding: bool,
    /// Where the finger is, as the caller keeps it.
    pub geometry: G,
}

/// A move on the panel: the same rule as on the bar (the panel scrolls vertically).
pub open spec fn spec_panel_moved<G>(press: PanelPress<G>, beyond_slop: bool, stepped: bool, geometry: G) -> (
    PanelPress<G>,
    bool,
) {
    let sliding = press.sliding || beyond_slop;
    (PanelPress { sliding, geometry, ..press }, sliding && stepped)
}

/// Finger `pointer` moved on the panel (see [`spec_panel_moved`]); returns whether the
/// panel scrolls. A move of any other finger, or with no finger followed, changes nothing.
pub fn panel_moved<G>(slot: &mut Option<PanelPress<G>>, pointer: i32, beyond_slop: bool, stepped: bool, geometry: G) -> (scrolls: bool)
    ensures
        match *old(slot) {
            Some(p) => if p.pointer == pointer {
                &&& *final(slot) == Some(spec_panel_moved(p, beyond_slop, stepped, geometry).0)
                &&& scrolls == spec_panel_moved(p, beyond_slop, stepped, geometry).1
                &&& scrolls == ((p.sliding || beyond_slop) && stepped)
            } else {
                *final(slot) == *old(slot) && !scrolls
            },
            None => *final(slot) is None && !scrolls,
        },
{
    match slot.take() {
        Some(p) => {
            if p.pointer == pointer {
                let sliding = p.sliding || beyond_slop;
                *slot = Some(PanelPress { pointer: p.pointer, sliding, geometry });
                sliding && stepped
            } else {
                *slot = Some(p);
                false
            }
        },
        None => false,
    }
}

/// What lifting a panel press commits: the candidate under the lifting point (`hit`) when
/// the finger never dragged, nothing otherwise.
pub open spec fn spec_panel_release<G>(ended: PanelPress<G>, hit: Option<usize>) -> Option<usize> {
    if ended.sliding {
        None
    } else {
        hit
    }
}

/// Finger `pointer` went up: what it commits is the candidate at the lifting point
/// (`hit`, an index into the whole list) when it never dragged, nothing otherwise; the panel
/// stops following it. A lift of any other finger changes nothing.
pub fn panel_lifted<G>(slot: &mut Option<PanelPress<G>>, pointer: i32, hit: Option<usize>) -> (commits: Option<usize>)
    ensures
        match *old(slot) {
            Some(p) => if p.pointer == pointer {
                &&& *final(slot) is None
                &&& commits == spec_panel_release(p, hit)
            } else {
                *final(slot) == *old(slot) && commits is None
            },
            None => *final(slot) is None && commits is None,
        },
{
    match slot.take() {
        Some(p) => {
            if p.pointer == pointer {
                if p.sliding {
                    None
                } else {
                    hit
                }
            } else {
                *slot = Some(p);
                None
            }
        },
        None => None,
    }
}

/// Once a finger dragged beyond the touch slop, on the bar or on the panel, lifting it
/// commits nothing, wherever it is lifted and whatever further moves it made.
pub proof fn lemma_a_drag_commits_nothing<G>(
    bar: BarPress<G>,
    panel: PanelPress<G>,
    beyond_slop: bool,
    stepped: bool,
    geometry: G,
    still_on_target: bool,
    hit: Option<usize>,
)
    requires
        bar.sliding,
        panel.sliding,
    ensures
        spec_bar_release(spec_bar_moved(bar, beyond_slop, stepped, geometry).0, still_on_target) is None,
        spec_panel_release(spec_panel_moved(panel, beyond_slop, stepped, geometry).0, hit) is None,
{
}

/// The rule a drag follows, on the bar and on the panel alike: a finger that left the touch
/// slop is dragging for good (coming back near where it went down does not make it a tap
/// again); a dragging finger scrolls on every move that moved it, and a finger that never
/// left the slop never scrolls; the finger and what it landed on stay the same.
pub proof fn lemma_drags_scroll_until_lifted<G>(
    bar: BarPress<G>,
    panel: PanelPress<G>,
    beyond_slop: bool,
    stepped: bool,
    geometry: G,
)
    ensures
        spec_bar_moved(bar, beyond_slop, stepped, geometry).0.sliding == (bar.sliding || beyond_slop),
        bar.sliding && stepped ==> spec_bar_moved(bar, beyond_slop, stepped, geometry).1,
        beyond_slop && stepped ==> spec_bar_moved(bar, beyond_slop, stepped, geometry).1,
        !stepped ==> !spec_bar_moved(bar, beyond_slop, stepped, geometry).1,
        !bar.sliding && !beyond_slop ==> !spec_bar_moved(bar, beyond_slop, stepped, geometry).1,
        spec_bar_moved(bar, beyond_slop, stepped, geometry).0.pointer == bar.pointer,
        spec_bar_moved(bar, beyond_slop, stepped, geometry).0.hit == bar.hit,
        spec_bar_moved(bar, beyond_slop, stepped, geometry).0.geometry == geometry,
        spec_panel_moved(panel, beyond_slop, stepped, geometry).0.sliding == (panel.sliding || beyond_slop),
        panel.sliding && stepped ==> spec_panel_moved(panel, beyond_slop, stepped, geometry).1,
        beyond_slop && stepped ==> spec_panel_moved(panel, beyond_slop, stepped, geometry).1,
        !stepped ==> !spec_panel_moved(panel, beyond_slop, stepped, geometry).1,
        !panel.sliding && !beyond_slop ==> !spec_panel_moved(panel, beyond_slop, stepped, geometry).1,
        spec_panel_moved(panel, beyond_slop, stepped, geometry).0.pointer == panel.pointer,
        spec_panel_moved(panel, beyond_slop, stepped, geometry).0.geometry == geometry,
{
}

/// A tap commits: a bar finger that never dragged, lifted on what it landed on, fires that
/// target, and nothing when lifted elsewhere; a panel finger that never dragged commits the
/// candidate under the lifting point.
pub proof fn lemma_taps_commit<G>(bar: BarPress<G>, panel: PanelPress<G>, still_on_target: bool, hit: Option<usize>)
    ensures
        !bar.sliding && still_on_target ==> spec_bar_release(bar, still_on_target) == bar.hit,
        !still_on_target ==> spec_bar_release(bar, still_on_target) is None,
        !panel.sliding ==> spec_panel_release(panel, hit) == hit,
{
}

} // verus!
