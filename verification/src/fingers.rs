//! Fingers followed one by one, by Android's pointer id.
//!
//! When typing fast the contact times of two thumbs overlap; keeping only "the finger that
//! is down" would let the second push the first out. So each finger's record is found by
//! its pointer id, and each event only touches that finger's record.

use vstd::prelude::*;

verus! {

/// A record of one finger, found by its pointer id.
pub trait Finger {
    /// The finger's pointer id.
    spec fn finger(&self) -> i32;

    /// The finger's pointer id.
    fn pointer_id(&self) -> (pointer: i32)
        ensures
            pointer == self.finger();
}

/// The presses other than `pointer`'s, in order.
pub open spec fn others<P: Finger>(presses: Seq<P>, pointer: i32) -> Seq<P>
    decreases presses.len(),
{
    if presses.len() == 0 {
        Seq::empty()
    } else if presses.last().finger() == pointer {
        others(presses.drop_last(), pointer)
    } else {
        others(presses.drop_last(), pointer).push(presses.last())
    }
}

/// The press of finger `pointer`, if it is down.
pub open spec fn press_of<P: Finger>(presses: Seq<P>, pointer: i32) -> Option<P>
    decreases presses.len(),
{
    if presses.len() == 0 {
        None
    } else if presses[0].finger() == pointer {
        Some(presses[0])
    } else {
        press_of(presses.skip(1), pointer)
    }
}

/// No finger is tracked twice.
pub open spec fn distinct<P: Finger>(presses: Seq<P>) -> bool {
    forall|i: int, j: int|
        0 <= i < j < presses.len() ==> (#[trigger] presses[i]).finger() != (#[trigger] presses[j]).finger()
}


/// The fingers down, in the order they went down.
#[derive(Debug)]
pub struct Fingers<P> {
    pub(crate) presses: Vec<P>,
}

impl<P: Finger> View for Fingers<P> {
    type V = Seq<P>;

    closed spec fn view(&self) -> Seq<P> {
        self.presses@
    }
}

/// The record is the vector it keeps (for the methods on particular kinds of finger).
pub(crate) broadcast proof fn lemma_fingers_view<P: Finger>(fingers: &Fingers<P>)
    ensures
        #[trigger] fingers@ == fingers.presses@,
{
}

impl<P: Finger> Fingers<P> {
    /// No finger is tracked twice.
    pub open spec fn wf(&self) -> bool {
        distinct(self@)
    }

    /// No finger down.
    pub fn new() -> (presses: Fingers<P>)
        ensures
            presses@.len() == 0,
            presses.wf(),
    {
        Fingers { presses: Vec::new() }
    }

    /// A finger went down: its press replaces any older record of the same pointer; the
    /// other fingers are left as they were.
    pub fn down(&mut self, press: P)
        requires
            old(self).wf(),
        ensures
            final(self).wf(),
            final(self)@ == others(old(self)@, press.finger()).push(press),
    {
        let pointer = press.pointer_id();
        let mut rest: Vec<P> = Vec::new();
        std::mem::swap(&mut rest, &mut self.presses);
        let ghost all = rest@;
        let n = rest.len();
        let mut kept: Vec<P> = Vec::new();
        let mut i: usize = 0;
        assert(all.take(0) =~= Seq::<P>::empty());
        while rest.len() > 0
            invariant
                all.len() == n,
                i + rest@.len() == all.len(),
                rest@ == all.skip(i as int),
                kept@ == others(all.take(i as int), pointer),
                self.presses@.len() == 0,
            decreases rest.len(),
        {
            let p = rest.remove(0);
            assert(all.take(i as int + 1).drop_last() =~= all.take(i as int));
            assert(all.take(i as int + 1).last() == all[i as int]);
            assert(all.skip(i as int)[0] == all[i as int]);
            assert(all.skip(i as int).remove(0) =~= all.skip(i as int + 1));
            if p.pointer_id() != pointer {
                kept.push(p);
            }
            i += 1;
        }
        assert(all.take(i as int) =~= all);
        proof {
            lemma_others_distinct(all, pointer);
        }
        kept.push(press);
        self.presses = kept;
        proof {
            lemma_others_excludes(all, pointer);
            let s = self@;
            assert forall|a: int, b: int| 0 <= a < b < s.len() implies (#[trigger] s[a]).finger() != (#[trigger] s[b]).finger() by {
                if b == s.len() - 1 {
                    assert(s[a] == others(all, pointer)[a]);
                }
            }
        }
    }

    /// Where finger `pointer`'s press is.
    pub(crate) fn position(&self, pointer: i32) -> (index: Option<usize>)
        ensures
            match index {
                Some(i) => i < self@.len() && self@[i as int].finger() == pointer && forall|j: int|
                    0 <= j < i ==> self@[j].finger() != pointer,
                None => forall|j: int| 0 <= j < self@.len() ==> self@[j].finger() != pointer,
            },
    {
        let mut i: usize = 0;
        while i < self.presses.len()
            invariant
                i <= self.presses.len(),
                forall|j: int| 0 <= j < i ==> self@[j].finger() != pointer,
            decreases self.presses.len() - i,
        {
            if self.presses[i].pointer_id() == pointer {
                return Some(i);
            }
            i += 1;
        }
        None
    }

    /// Finger `pointer`'s press, if it is down.
    pub fn get(&self, pointer: i32) -> (press: Option<&P>)
        ensures
            match press {
                Some(p) => press_of(self@, pointer) == Some(*p),
                None => press_of(self@, pointer) is None,
            },
    {
        match self.position(pointer) {
            Some(i) => {
                proof {
                    lemma_press_of_first(self@, pointer, i as int);
                }
                Some(&self.presses[i])
            },
            None => {
                proof {
                    lemma_press_of_none(self@, pointer);
                }
                None
            },
        }
    }

    /// Replaces the record of `press`'s finger with `press` (after a move). Nothing happens
    /// when that finger is not down.
    pub fn update(&mut self, press: P)
        requires
            old(self).wf(),
        ensures
            final(self).wf(),
            forall|q: i32| q != press.finger() ==> #[trigger] press_of(final(self)@, q) == press_of(old(self)@, q),
            press_of(old(self)@, press.finger()) is Some ==> press_of(final(self)@, press.finger()) == Some(press),
            press_of(old(self)@, press.finger()) is None ==> final(self)@ == old(self)@,
    {
        let pointer = press.pointer_id();
        match self.position(pointer) {
            Some(i) => {
                let ghost before = self@;
                proof {
                    lemma_press_of_first(before, pointer, i as int);
                }
                self.presses.set(i, press);
                proof {
                    lemma_press_of_update(before, i as int, press);
                }
            },
            None => {
                proof {
                    lemma_press_of_none(self@, pointer);
                }
            },
        }
    }

    /// A finger went up: its press is taken out and handed back; the other fingers stay.
    pub fn up(&mut self, pointer: i32) -> (ended: Option<P>)
        requires
            old(self).wf(),
        ensures
            final(self).wf(),
            ended == press_of(old(self)@, pointer),
            final(self)@ == others(old(self)@, pointer),
    {
        match self.position(pointer) {
            Some(i) => {
                let ghost before = self@;
                let ended = self.presses.remove(i);
                proof {
                    lemma_press_of_first(before, pointer, i as int);
                    lemma_others_remove(before, pointer, i as int);
                    let s = self@;
                    assert forall|a: int, b: int| 0 <= a < b < s.len() implies (#[trigger] s[a]).finger() != (#[trigger] s[b]).finger() by {
                        let a0 = if a < i { a } else { a + 1 };
                        let b0 = if b < i { b } else { b + 1 };
                        assert(s[a] == before[a0]);
                        assert(s[b] == before[b0]);
                    }
                }
                Some(ended)
            },
            None => {
                proof {
                    lemma_press_of_none(self@, pointer);
                    lemma_others_absent(self@, pointer);
                }
                None
            },
        }
    }

    /// The touch was cancelled: every finger is forgotten.
    pub fn cancel(&mut self)
        ensures
            final(self)@.len() == 0,
            final(self).wf(),
    {
        self.presses = Vec::new();
    }

}

pub(crate) proof fn lemma_others_excludes<P: Finger>(presses: Seq<P>, pointer: i32)
    ensures
        forall|i: int| 0 <= i < others(presses, pointer).len() ==> (#[trigger] others(presses, pointer)[i]).finger() != pointer,
        forall|i: int| 0 <= i < others(presses, pointer).len() ==> presses.contains(#[trigger] others(presses, pointer)[i]),
    decreases presses.len(),
{
    if presses.len() > 0 {
        lemma_others_excludes(presses.drop_last(), pointer);
        let r = others(presses.drop_last(), pointer);
        let o = others(presses, pointer);
        assert forall|i: int| 0 <= i < o.len() implies presses.contains(#[trigger] o[i]) by {
            if i < r.len() {
                assert(o[i] == r[i]);
                let j = choose|j: int| 0 <= j < presses.drop_last().len() && presses.drop_last()[j] == r[i];
                assert(presses[j] == o[i]);
            } else {
                assert(presses[presses.len() - 1] == o[i]);
            }
        }
    }
}

pub(crate) proof fn lemma_others_distinct<P: Finger>(presses: Seq<P>, pointer: i32)
    requires
        distinct(presses),
    ensures
        distinct(others(presses, pointer)),
        others(presses, pointer).len() <= presses.len(),
    decreases presses.len(),
{
    if presses.len() > 0 {
        let d = presses.drop_last();
        assert(distinct(d)) by {
            assert forall|i: int, j: int| 0 <= i < j < d.len() implies (#[trigger] d[i]).finger() != (#[trigger] d[j]).finger() by {
                assert(d[i] == presses[i] && d[j] == presses[j]);
            }
        }
        lemma_others_distinct(d, pointer);
        lemma_others_excludes(d, pointer);
        let r = others(d, pointer);
        let o = others(presses, pointer);
        if presses.last().finger() != pointer {
            assert forall|i: int, j: int| 0 <= i < j < o.len() implies (#[trigger] o[i]).finger() != (#[trigger] o[j]).finger() by {
                if j == o.len() - 1 {
                    assert(d.contains(r[i]));
                    let k = choose|k: int| 0 <= k < d.len() && d[k] == r[i];
                    assert(presses[k] == r[i]);
                    assert(o[j] == presses[presses.len() - 1]);
                } else {
                    assert(o[i] == r[i] && o[j] == r[j]);
                }
            }
        }
    }
}

pub(crate) proof fn lemma_press_of_first<P: Finger>(presses: Seq<P>, pointer: i32, i: int)
    requires
        0 <= i < presses.len(),
        presses[i].finger() == pointer,
        forall|j: int| 0 <= j < i ==> presses[j].finger() != pointer,
    ensures
        press_of(presses, pointer) == Some(presses[i]),
    decreases i,
{
    if i > 0 {
        lemma_press_of_first(presses.skip(1), pointer, i - 1);
    }
}

pub(crate) proof fn lemma_press_of_none<P: Finger>(presses: Seq<P>, pointer: i32)
    requires
        forall|j: int| 0 <= j < presses.len() ==> presses[j].finger() != pointer,
    ensures
        press_of(presses, pointer) is None,
    decreases presses.len(),
{
    if presses.len() > 0 {
        lemma_press_of_none(presses.skip(1), pointer);
    }
}

pub(crate) proof fn lemma_others_absent<P: Finger>(presses: Seq<P>, pointer: i32)
    requires
        forall|j: int| 0 <= j < presses.len() ==> presses[j].finger() != pointer,
    ensures
        others(presses, pointer) == presses,
    decreases presses.len(),
{
    if presses.len() > 0 {
        lemma_others_absent(presses.drop_last(), pointer);
        assert(presses.drop_last().push(presses.last()) =~= presses);
    }
}

pub(crate) proof fn lemma_others_remove<P: Finger>(presses: Seq<P>, pointer: i32, i: int)
    requires
        distinct(presses),
        0 <= i < presses.len(),
        presses[i].finger() == pointer,
    ensures
        others(presses, pointer) == presses.remove(i),
    decreases presses.len(),
{
    let d = presses.drop_last();
    if i == presses.len() - 1 {
        assert forall|j: int| 0 <= j < d.len() implies d[j].finger() != pointer by {
            assert(presses[j].finger() != presses[i].finger());
        }
        lemma_others_absent(d, pointer);
        assert(presses.remove(i) =~= d);
    } else {
        assert(distinct(d)) by {
            assert forall|a: int, b: int| 0 <= a < b < d.len() implies (#[trigger] d[a]).finger() != (#[trigger] d[b]).finger() by {
                assert(d[a] == presses[a] && d[b] == presses[b]);
            }
        }
        lemma_others_remove(d, pointer, i);
        assert(presses.last().finger() != pointer);
        assert(d.remove(i).push(presses.last()) =~= presses.remove(i));
    }
}

pub(crate) proof fn lemma_press_of_update<P: Finger>(presses: Seq<P>, i: int, press: P)
    requires
        distinct(presses),
        0 <= i < presses.len(),
        presses[i].finger() == press.finger(),
    ensures
        distinct(presses.update(i, press)),
        press_of(presses.update(i, press), press.finger()) == Some(press),
        forall|q: i32| q != press.finger() ==> #[trigger] press_of(presses.update(i, press), q) == press_of(presses, q),
{
    let u = presses.update(i, press);
    assert forall|a: int, b: int| 0 <= a < b < u.len() implies (#[trigger] u[a]).finger() != (#[trigger] u[b]).finger() by {
        assert(presses[a].finger() != presses[b].finger());
    }
    assert forall|j: int| 0 <= j < i implies u[j].finger() != press.finger() by {
        assert(presses[j].finger() != presses[i].finger());
    }
    lemma_press_of_first(u, press.finger(), i);
    assert forall|q: i32| q != press.finger() implies #[trigger] press_of(u, q) == press_of(presses, q) by {
        lemma_press_of_same_other(presses, i, press, q);
    }
}

pub(crate) proof fn lemma_press_of_same_other<P: Finger>(presses: Seq<P>, i: int, press: P, q: i32)
    requires
        0 <= i < presses.len(),
        presses[i].finger() == press.finger(),
        q != press.finger(),
    ensures
        press_of(presses.update(i, press), q) == press_of(presses, q),
    decreases presses.len(),
{
    let u = presses.update(i, press);
    if i == 0 {
        assert(u.skip(1) =~= presses.skip(1));
    } else {
        lemma_press_of_same_other(presses.skip(1), i - 1, press, q);
        assert(u.skip(1) =~= presses.skip(1).update(i - 1, press));
    }
}

/// Whatever one finger does (going down, moving, lifting), the record of every other
/// finger stays as it was: two overlapping fingers never take each other's key.
pub proof fn lemma_fingers_are_independent<P: Finger>(presses: Seq<P>, press: P, q: i32)
    requires
        distinct(presses),
        q != press.finger(),
    ensures
        press_of(others(presses, press.finger()).push(press), q) == press_of(presses, q),
        press_of(others(presses, press.finger()), q) == press_of(presses, q),
    decreases presses.len(),
{
    lemma_press_of_others(presses, press.finger(), q);
    lemma_press_of_push(others(presses, press.finger()), press, q);
}

pub(crate) proof fn lemma_press_of_push<P: Finger>(presses: Seq<P>, press: P, q: i32)
    requires
        q != press.finger(),
    ensures
        press_of(presses.push(press), q) == press_of(presses, q),
    decreases presses.len(),
{
    if presses.len() == 0 {
        assert(presses.push(press)[0] == press);
        assert(presses.push(press).skip(1) =~= Seq::<P>::empty());
        assert(press_of(presses.push(press).skip(1), q) is None);
        assert(press_of(presses, q) is None);
    } else {
        assert(presses.push(press)[0] == presses[0]);
        lemma_press_of_push(presses.skip(1), press, q);
        assert(presses.push(press).skip(1) =~= presses.skip(1).push(press));
    }
}

pub(crate) proof fn lemma_press_of_others<P: Finger>(presses: Seq<P>, pointer: i32, q: i32)
    requires
        distinct(presses),
        q != pointer,
    ensures
        press_of(others(presses, pointer), q) == press_of(presses, q),
    decreases presses.len(),
{
    if presses.len() > 0 {
        match choose_index(presses, pointer) {
            Some(i) => {
                lemma_others_remove(presses, pointer, i);
                lemma_press_of_remove(presses, i, q);
            },
            None => {
                lemma_others_absent(presses, pointer);
            },
        }
    }
}

/// Where finger `pointer` is in `presses`, if anywhere.
pub(crate) open spec fn choose_index<P: Finger>(presses: Seq<P>, pointer: i32) -> Option<int> {
    if exists|i: int| 0 <= i < presses.len() && (#[trigger] presses[i]).finger() == pointer {
        Some(choose|i: int| 0 <= i < presses.len() && (#[trigger] presses[i]).finger() == pointer)
    } else {
        None
    }
}

pub(crate) proof fn lemma_press_of_remove<P: Finger>(presses: Seq<P>, i: int, q: i32)
    requires
        0 <= i < presses.len(),
        presses[i].finger() != q,
    ensures
        press_of(presses.remove(i), q) == press_of(presses, q),
    decreases presses.len(),
{
    if i == 0 {
        assert(presses.remove(0) =~= presses.skip(1));
    } else {
        lemma_press_of_remove(presses.skip(1), i - 1, q);
        assert(presses.remove(i).skip(1) =~= presses.skip(1).remove(i - 1));
        assert(presses.remove(i)[0] == presses[0]);
    }
}

/// A finger that went up is no longer found: later events for its pointer find nothing
/// (until it goes down again).
pub proof fn lemma_lifted_finger_is_gone<P: Finger>(presses: Seq<P>, pointer: i32)
    ensures
        press_of(others(presses, pointer), pointer) is None,
{
    lemma_others_excludes(presses, pointer);
    lemma_press_of_none(others(presses, pointer), pointer);
}

} // verus!
