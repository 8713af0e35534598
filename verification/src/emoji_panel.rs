//! The data behind the emoji and kaomoji pages: groups of items, cut into pages.
//!
//! The table is "group / item / names..." in tab-separated columns, groups opened by a
//! `# group: name` line; only the first two columns are read. Every group's items are cut
//! into pages of one screen each, laid end to end: paging sideways walks through them.
//! A "recently used" group can be put in front; the kaomoji page merges its groups into one.

use vstd::prelude::*;
use crate::paging::{chunks, joined, paged, first_page, last_page, lemma_paged_step, lemma_chunks_len,
    lemma_page_in_some_group, lemma_pages_ordered, lemma_pages_total, lemma_page_of_group};
use crate::recent::{views, selected, answered, lemma_selected_push};
use crate::text::{same_text, chars_of, string_of, trim, trimmed, second_field, second_field_of};
use crate::lines::{lines, split_lines};

verus! {

/// Items on one emoji page: one screen's worth.
pub const EMOJI_SLOTS: usize = 15;

/// Items on one kaomoji page: twenty cells, the first taken by the "recent" button.
pub const KAOMOJI_SLOTS: usize = 19;

/// What the "recently used" group is called on the tab strip.
pub const RECENT_LABEL: &'static str = "最近";

/// The icons some group tabs carry instead of a name.
#[derive(Debug, Clone, Copy, PartialEq, Eq, Structural)]
pub enum GroupIcon {
    Recent,
    Smile,
    People,
    Animals,
    Food,
    Travel,
    Activities,
    Objects,
    Symbols,
    Flags,
}

/// What a group's tab shows: an icon, or the group's name.
#[derive(Debug, Clone, PartialEq, Eq)]
pub enum GroupLabel {
    Icon(GroupIcon),
    Text(String),
}

/// The icon a group name has, if any: the recent group and the nine emoji categories.
pub open spec fn icon_of(name: Seq<char>) -> Option<GroupIcon> {
    if name == "最近"@ {
        Some(GroupIcon::Recent)
    } else if name == "Smileys & Emotion"@ {
        Some(GroupIcon::Smile)
    } else if name == "People & Body"@ {
        Some(GroupIcon::People)
    } else if name == "Animals & Nature"@ {
        Some(GroupIcon::Animals)
    } else if name == "Food & Drink"@ {
        Some(GroupIcon::Food)
    } else if name == "Travel & Places"@ {
        Some(GroupIcon::Travel)
    } else if name == "Activities"@ {
        Some(GroupIcon::Activities)
    } else if name == "Objects"@ {
        Some(GroupIcon::Objects)
    } else if name == "Symbols"@ {
        Some(GroupIcon::Symbols)
    } else if name == "Flags"@ {
        Some(GroupIcon::Flags)
    } else {
        None
    }
}

/// Whether `label` is the tab for a group called `name`.
pub open spec fn labels_name(label: GroupLabel, name: Seq<char>) -> bool {
    match icon_of(name) {
        Some(icon) => label == GroupLabel::Icon(icon),
        None => label matches GroupLabel::Text(text) && text@ == name,
    }
}

/// The tab for a group called `name`: its icon, or the name itself.
pub fn group_label(name: &str) -> (label: GroupLabel)
    ensures
        labels_name(label, name@),
{
    let icon = if same_text(name, "最近") {
        GroupIcon::Recent
    } else if same_text(name, "Smileys & Emotion") {
        GroupIcon::Smile
    } else if same_text(name, "People & Body") {
        GroupIcon::People
    } else if same_text(name, "Animals & Nature") {
        GroupIcon::Animals
    } else if same_text(name, "Food & Drink") {
        GroupIcon::Food
    } else if same_text(name, "Travel & Places") {
        GroupIcon::Travel
    } else if same_text(name, "Activities") {
        GroupIcon::Activities
    } else if same_text(name, "Objects") {
        GroupIcon::Objects
    } else if same_text(name, "Symbols") {
        GroupIcon::Symbols
    } else if same_text(name, "Flags") {
        GroupIcon::Flags
    } else {
        return GroupLabel::Text(name.to_owned());
    };
    GroupLabel::Icon(icon)
}

/// The items of each group.
pub open spec fn group_views(groups: Seq<Vec<String>>) -> Seq<Seq<Seq<char>>> {
    groups.map_values(|g: Vec<String>| views(g@))
}

/// The page size actually used: a size of 0 counts as 1.
pub open spec fn page_size(slots: usize) -> nat {
    if slots == 0 {
        1
    } else {
        slots as nat
    }
}

/// A copy of `items[from..to]`.
pub(crate) fn copy_range(items: &Vec<String>, from: usize, to: usize) -> (out: Vec<String>)
    requires
        from <= to <= items.len(),
    ensures
        views(out@) == views(items@).subrange(from as int, to as int),
{
    let mut out: Vec<String> = Vec::new();
    let mut i = from;
    while i < to
        invariant
            from <= i <= to <= items.len(),
            views(out@) =~= views(items@).subrange(from as int, i as int),
        decreases to - i,
    {
        let ghost before = views(out@);
        out.push(items[i].clone());
        assert(views(out@) =~= before.push(items@[i as int]@));
        i += 1;
    }
    out
}

/// A copy of every item of every group.
pub(crate) fn copy_groups(groups: &Vec<Vec<String>>) -> (out: Vec<Vec<String>>)
    ensures
        group_views(out@) == group_views(groups@),
{
    let mut out: Vec<Vec<String>> = Vec::new();
    let mut g: usize = 0;
    while g < groups.len()
        invariant
            g <= groups.len(),
            group_views(out@) =~= group_views(groups@).take(g as int),
        decreases groups.len() - g,
    {
        let ghost before = group_views(out@);
        let copy = copy_range(&groups[g], 0, groups[g].len());
        assert(views(groups@[g as int]@).subrange(0, groups@[g as int]@.len() as int) =~= views(groups@[g as int]@));
        out.push(copy);
        assert(group_views(out@) =~= before.push(views(groups@[g as int]@)));
        g += 1;
    }
    out
}

/// A copy of each text.
pub(crate) fn copy_texts(texts: &Vec<String>) -> (out: Vec<String>)
    ensures
        views(out@) == views(texts@),
{
    let out = copy_range(texts, 0, texts.len());
    assert(views(texts@).subrange(0, texts@.len() as int) =~= views(texts@));
    out
}

/// The emoji (or kaomoji) page's data.
#[derive(Debug)]
pub struct EmojiPanel {
    slots: usize,
    sticky_recent: bool,
    names: Vec<String>,
    items: Vec<Vec<String>>,
    pages: Vec<Vec<String>>,
    ranges: Vec<(usize, usize)>,
    labels: Vec<GroupLabel>,
}

impl EmojiPanel {
    /// The groups' names, in order.
    pub closed spec fn spec_names(&self) -> Seq<Seq<char>> {
        views(self.names@)
    }

    /// The items of each group, in order.
    pub closed spec fn spec_groups(&self) -> Seq<Seq<Seq<char>>> {
        group_views(self.items@)
    }

    /// How many items one page holds.
    pub closed spec fn spec_size(&self) -> nat {
        page_size(self.slots)
    }

    /// Whether the recent group stays (empty) when nothing was used yet.
    pub closed spec fn spec_sticky(&self) -> bool {
        self.sticky_recent
    }

    /// Every group's pages, end to end.
    pub open spec fn spec_pages(&self) -> Seq<Seq<Seq<char>>> {
        paged(self.spec_groups(), self.spec_size())
    }

    /// The panel is consistent: one name and one tab per group, and the pages and each
    /// group's run of pages are those of the groups.
    pub closed spec fn wf(&self) -> bool {
        &&& self.names@.len() == self.items@.len()
        &&& self.labels@.len() == self.items@.len()
        &&& self.ranges@.len() == self.items@.len()
        &&& group_views(self.pages@) == paged(group_views(self.items@), page_size(self.slots))
        &&& forall|g: int|
            0 <= g < self.ranges@.len() ==> {
                &&& (#[trigger] self.ranges@[g]).0 == first_page(
                    group_views(self.items@),
                    page_size(self.slots),
                    g,
                )
                &&& self.ranges@[g].1 == last_page(group_views(self.items@), page_size(self.slots), g)
            }
        &&& forall|g: int| 0 <= g < self.labels@.len() ==> labels_name(#[trigger] self.labels@[g], views(self.names@)[g])
    }

    /// Lays the groups out again: pages, each group's run of pages, the tabs.
    fn assemble(slots: usize, sticky_recent: bool, names: Vec<String>, items: Vec<Vec<String>>) -> (panel: EmojiPanel)
        requires
            names@.len() == items@.len(),
        ensures
            panel.wf(),
            panel.slots == slots,
            panel.sticky_recent == sticky_recent,
            panel.spec_names() == views(names@),
            panel.spec_groups() == group_views(items@),
    {
        let size: usize = if slots == 0 { 1 } else { slots };
        let ghost groups = group_views(items@);
        let ghost sz = page_size(slots);
        let mut pages: Vec<Vec<String>> = Vec::new();
        let mut ranges: Vec<(usize, usize)> = Vec::new();
        let mut g: usize = 0;
        assert(groups.take(0) =~= Seq::<Seq<Seq<char>>>::empty());
        assert(group_views(pages@) =~= paged(groups.take(0), sz));
        while g < items.len()
            invariant
                g <= items.len(),
                size == sz,
                sz >= 1,
                groups == group_views(items@),
                group_views(pages@) == paged(groups.take(g as int), sz),
                ranges@.len() == g,
                forall|h: int|
                    0 <= h < g ==> {
                        &&& (#[trigger] ranges@[h]).0 == first_page(groups, sz, h)
                        &&& ranges@[h].1 == last_page(groups, sz, h)
                    },
            decreases items.len() - g,
        {
            let group = &items[g];
            let ghost gv = views(group@);
            assert(gv == groups[g as int]);
            proof {
                lemma_paged_step(groups, sz, g as int);
                lemma_chunks_len(gv, sz);
            }
            let first = pages.len();
            let ghost start_pages = group_views(pages@);
            let mut start: usize = 0;
            assert(gv.skip(0) =~= gv);
            assert(group_views(pages@) + chunks(gv.skip(0), sz) =~= start_pages + chunks(gv, sz));
            loop
                invariant_except_break
                    group_views(pages@) + chunks(gv.skip(start as int), sz) == start_pages + chunks(gv, sz),
                invariant
                    start <= group.len(),
                    gv == views(group@),
                    size == sz,
                    sz >= 1,
                    start_pages == paged(groups.take(g as int), sz),
                    pages@.len() >= first,
                    first == start_pages.len(),
                    start_pages.len() + chunks(gv, sz).len() <= start_pages.len() + gv.len() + 1,
                ensures
                    group_views(pages@) == start_pages + chunks(gv, sz),
                decreases group.len() - start,
            {
                let rest = group.len() - start;
                let ghost rv = gv.skip(start as int);
                if rest <= size {
                    let page = copy_range(group, start, group.len());
                    assert(gv.subrange(start as int, group.len() as int) =~= rv);
                    let ghost before = group_views(pages@);
                    pages.push(page);
                    assert(group_views(pages@) =~= before.push(rv));
                    assert(chunks(rv, sz) == seq![rv]);
                    assert(before + seq![rv] =~= before.push(rv));
                    break;
                }
                let page = copy_range(group, start, start + size);
                assert(gv.subrange(start as int, start + size) =~= rv.take(size as int));
                assert(rv.skip(size as int) =~= gv.skip(start + size));
                let ghost before = group_views(pages@);
                pages.push(page);
                assert(group_views(pages@) =~= before.push(rv.take(size as int)));
                assert(before.push(rv.take(size as int)) + chunks(gv.skip(start + size), sz) =~= before + (seq![rv.take(size as int)] + chunks(rv.skip(size as int), sz)));
                start = start + size;
            }
            assert(group_views(pages@) == paged(groups.take(g as int + 1), sz));
            assert(pages.len() >= 1);
            ranges.push((first, pages.len() - 1));
            g += 1;
        }
        assert(groups.take(items.len() as int) =~= groups);
        let labels = labels_of(&names);
        EmojiPanel { slots, sticky_recent, names, items, pages, ranges, labels }
    }

    /// An empty panel cut into emoji-sized pages.
    pub fn new() -> (panel: EmojiPanel)
        ensures
            panel.wf(),
            panel.spec_names().len() == 0,
            panel.spec_groups().len() == 0,
            panel.spec_size() == EMOJI_SLOTS,
            !panel.spec_sticky(),
    {
        Self::assemble(EMOJI_SLOTS, false, Vec::new(), Vec::new())
    }

    /// Which group page `page` belongs to (the first group when there is no such page).
    pub fn group_of_page(&self, page: usize) -> (group: usize)
        requires
            self.wf(),
        ensures
            page < self.spec_pages().len() ==> {
                &&& group < self.spec_groups().len()
                &&& first_page(self.spec_groups(), self.spec_size(), group as int) <= page
                &&& page <= last_page(self.spec_groups(), self.spec_size(), group as int)
            },
            page >= self.spec_pages().len() ==> group == 0,
    {
        let ghost groups = self.spec_groups();
        let ghost sz = self.spec_size();
        let mut g: usize = 0;
        while g < self.ranges.len()
            invariant
                self.wf(),
                groups == self.spec_groups(),
                sz == self.spec_size(),
                g <= self.ranges.len(),
                forall|h: int|
                    0 <= h < g ==> !(first_page(groups, sz, h) <= page && page <= #[trigger] last_page(
                        groups,
                        sz,
                        h,
                    )),
            decreases self.ranges.len() - g,
        {
            let (first, last) = self.ranges[g];
            assert(self.ranges@[g as int].0 == first_page(groups, sz, g as int));
            if first <= page && page <= last {
                proof {
                    if page >= self.spec_pages().len() {
                        lemma_paged_step(groups, sz, g as int);
                        lemma_pages_total(groups, sz);
                        if g + 1 < groups.len() {
                            lemma_pages_ordered(groups, sz, g as int, groups.len() - 1);
                            lemma_paged_step(groups, sz, groups.len() - 1);
                        }
                    }
                }
                return g;
            }
            g += 1;
        }
        proof {
            if page < self.spec_pages().len() {
                lemma_page_in_some_group(groups, sz, page as int);
            }
        }
        0
    }

    /// The first page of group `group` (0 when there is no such group).
    pub fn page_of_group(&self, group: usize) -> (page: usize)
        requires
            self.wf(),
        ensures
            group < self.spec_groups().len() ==> page == first_page(self.spec_groups(), self.spec_size(), group as int),
            group >= self.spec_groups().len() ==> page == 0,
    {
        if group < self.ranges.len() {
            self.ranges[group].0
        } else {
            0
        }
    }

    /// How many pages group `group` has (1 when there is no such group).
    pub fn pages_of_group(&self, group: usize) -> (count: usize)
        requires
            self.wf(),
        ensures
            group < self.spec_groups().len() ==> count == chunks(self.spec_groups()[group as int], self.spec_size()).len(),
            group >= self.spec_groups().len() ==> count == 1,
    {
        if group < self.ranges.len() {
            proof {
                let groups = self.spec_groups();
                let sz = self.spec_size();
                lemma_paged_step(groups, sz, group as int);
                lemma_chunks_len(groups[group as int], sz);
                lemma_page_of_group(groups, sz, group as int, chunks(groups[group as int], sz).len() - 1);
                assert(group_views(self.pages@).len() == self.pages@.len());
            }
            let n = self.pages.len();
            let (first, last) = self.ranges[group];
            assert(last < n);
            assert(self.ranges@[group as int].0 == first_page(self.spec_groups(), self.spec_size(), group as int));
            assert(last as int == last_page(self.spec_groups(), self.spec_size(), group as int));
            last - first + 1
        } else {
            1
        }
    }

    /// The items on page `page` (none past the last page).
    pub fn page_items(&self, page: usize) -> (items: &[String])
        requires
            self.wf(),
        ensures
            page < self.spec_pages().len() ==> views(items@) == self.spec_pages()[page as int],
            page >= self.spec_pages().len() ==> items@.len() == 0,
    {
        if page < self.pages.len() {
            assert(group_views(self.pages@)[page as int] == views(self.pages@[page as int]@));
            self.pages[page].as_slice()
        } else {
            &[]
        }
    }

    /// How many pages there are.
    pub fn page_count(&self) -> (count: usize)
        requires
            self.wf(),
        ensures
            count == self.spec_pages().len(),
    {
        self.pages.len()
    }

    /// How many groups there are.
    pub fn group_count(&self) -> (count: usize)
        requires
            self.wf(),
        ensures
            count == self.spec_groups().len(),
    {
        self.items.len()
    }

    /// The tabs of the groups, in order.
    pub fn labels(&self) -> (labels: &[GroupLabel])
        requires
            self.wf(),
        ensures
            labels@.len() == self.spec_names().len(),
            forall|g: int| 0 <= g < labels@.len() ==> labels_name(#[trigger] labels@[g], self.spec_names()[g]),
    {
        self.labels.as_slice()
    }
}

impl Default for EmojiPanel {
    /// An empty panel cut into emoji-sized pages (never pages of one item).
    fn default() -> (panel: EmojiPanel)
        ensures
            panel.wf(),
            panel.spec_names().len() == 0,
            panel.spec_groups().len() == 0,
            panel.spec_size() == EMOJI_SLOTS,
            !panel.spec_sticky(),
    {
        EmojiPanel::new()
    }
}

/// The tab of each group.
fn labels_of(names: &Vec<String>) -> (labels: Vec<GroupLabel>)
    ensures
        labels@.len() == names@.len(),
        forall|g: int| 0 <= g < labels@.len() ==> labels_name(#[trigger] labels@[g], views(names@)[g]),
{
    let mut labels: Vec<GroupLabel> = Vec::new();
    let mut g: usize = 0;
    while g < names.len()
        invariant
            g <= names.len(),
            labels@.len() == g,
            forall|h: int| 0 <= h < g ==> labels_name(#[trigger] labels@[h], views(names@)[h]),
        decreases names.len() - g,
    {
        labels.push(group_label(names[g].as_str()));
        g += 1;
    }
    labels
}

/// The name of the recent group.
pub open spec fn recent_name() -> Seq<char> {
    "最近"@
}

/// Whether the first group is the recent one.
pub open spec fn has_recent(names: Seq<Seq<char>>) -> bool {
    names.len() > 0 && names[0] == recent_name()
}

/// The groups after putting `recent` in front as the recent group: it replaces the old
/// recent group, or is inserted before everything when there was none. With nothing
/// recent, the group goes away, unless the panel keeps it (then it is left empty).
pub open spec fn with_recent(
    names: Seq<Seq<char>>,
    groups: Seq<Seq<Seq<char>>>,
    sticky: bool,
    recent: Seq<Seq<char>>,
) -> (Seq<Seq<char>>, Seq<Seq<Seq<char>>>) {
    if recent.len() == 0 {
        if has_recent(names) && !sticky {
            (names.skip(1), groups.skip(1))
        } else if has_recent(names) {
            (names, groups.update(0, Seq::empty()))
        } else {
            (names, groups)
        }
    } else if has_recent(names) {
        (names, groups.update(0, recent))
    } else {
        (seq![recent_name()] + names, seq![recent] + groups)
    }
}

/// Every group's items, group after group.
pub open spec fn flattened(groups: Seq<Seq<Seq<char>>>) -> Seq<Seq<char>> {
    joined(groups)
}

/// The name of the single group a merged panel has.
pub open spec fn all_name() -> Seq<char> {
    "全部"@
}

/// The groups left once each group keeps the items its `answers` accept; a group left
/// with nothing goes away with its name.
pub open spec fn retained(
    names: Seq<Seq<char>>,
    groups: Seq<Seq<Seq<char>>>,
    answers: Seq<Seq<bool>>,
) -> (Seq<Seq<char>>, Seq<Seq<Seq<char>>>)
    decreases groups.len(),
{
    if groups.len() == 0 || names.len() == 0 || answers.len() == 0 {
        (Seq::empty(), Seq::empty())
    } else {
        let (n, g) = retained(names.drop_last(), groups.drop_last(), answers.drop_last());
        let kept = selected(groups.last(), answers.last());
        if kept.len() == 0 {
            (n, g)
        } else {
            (n.push(names.last()), g.push(kept))
        }
    }
}

/// `answers[g][i]` is what `keep` said about item `i` of group `g`.
pub open spec fn answered_all<F: Fn(&str) -> bool>(
    keep: F,
    groups: Seq<Seq<Seq<char>>>,
    asked: Seq<Seq<&str>>,
    answers: Seq<Seq<bool>>,
) -> bool {
    &&& asked.len() == groups.len()
    &&& answers.len() == groups.len()
    &&& forall|g: int| 0 <= g < groups.len() ==> answered(keep, #[trigger] groups[g], asked[g], answers[g])
}

impl EmojiPanel {
    /// Puts the recently used items in front as their own group (see [`with_recent`]),
    /// and lays the pages out again.
    pub fn set_recent(&mut self, recent: &[String])
        requires
            old(self).wf(),
        ensures
            final(self).wf(),
            (final(self).spec_names(), final(self).spec_groups()) == with_recent(
                old(self).spec_names(),
                old(self).spec_groups(),
                old(self).spec_sticky(),
                views(recent@),
            ),
            final(self).spec_size() == old(self).spec_size(),
            final(self).spec_sticky() == old(self).spec_sticky(),
    {
        let mut names = copy_texts(&self.names);
        let mut items = copy_groups(&self.items);
        let ghost n0 = views(names@);
        let ghost g0 = group_views(items@);
        let has = names.len() > 0 && same_text(names[0].as_str(), "最近");
        let mut recent_items: Vec<String> = Vec::new();
        let mut i: usize = 0;
        while i < recent.len()
            invariant
                i <= recent.len(),
                views(recent_items@) =~= views(recent@).take(i as int),
            decreases recent.len() - i,
        {
            let ghost before = views(recent_items@);
            recent_items.push(recent[i].clone());
            assert(views(recent_items@) =~= before.push(recent@[i as int]@));
            i += 1;
        }
        assert(views(recent@).take(recent.len() as int) =~= views(recent@));
        let ghost rv = views(recent_items@);
        if recent.len() == 0 {
            if has && !self.sticky_recent {
                names.remove(0);
                items.remove(0);
                assert(views(names@) =~= n0.skip(1));
                assert(group_views(items@) =~= g0.skip(1));
            } else if has {
                let nothing: Vec<String> = Vec::new();
                assert(views(nothing@) =~= Seq::<Seq<char>>::empty());
                items.set(0, nothing);
                assert(group_views(items@) =~= g0.update(0, Seq::empty()));
            }
        } else if has {
            items.set(0, recent_items);
            assert(group_views(items@) =~= g0.update(0, rv));
        } else {
            names.insert(0, "最近".to_owned());
            items.insert(0, recent_items);
            proof {
                reveal_strlit("最近");
            }
            assert(views(names@) =~= seq![recent_name()] + n0);
            assert(group_views(items@) =~= seq![rv] + g0);
        }
        *self = Self::assemble(self.slots, self.sticky_recent, names, items);
    }

    /// Merges every group into one called "全部", items in order (the kaomoji page has no
    /// tabs: paging then runs from the first item to the last).
    pub fn merge_groups(&mut self)
        requires
            old(self).wf(),
        ensures
            final(self).wf(),
            final(self).spec_names() == seq![all_name()],
            final(self).spec_groups() == seq![flattened(old(self).spec_groups())],
            final(self).spec_size() == old(self).spec_size(),
            final(self).spec_sticky() == old(self).spec_sticky(),
    {
        let ghost groups = self.spec_groups();
        let mut all: Vec<String> = Vec::new();
        let mut g: usize = 0;
        assert(groups.take(0) =~= Seq::<Seq<Seq<char>>>::empty());
        while g < self.items.len()
            invariant
                g <= self.items.len(),
                groups == group_views(self.items@),
                views(all@) == flattened(groups.take(g as int)),
            decreases self.items.len() - g,
        {
            let group = &self.items[g];
            let mut i: usize = 0;
            let ghost start = views(all@);
            while i < group.len()
                invariant
                    i <= group.len(),
                    views(all@) =~= start + views(group@).take(i as int),
                decreases group.len() - i,
            {
                let ghost before = views(all@);
                all.push(group[i].clone());
                assert(views(all@) =~= before.push(group@[i as int]@));
                i += 1;
            }
            assert(views(group@).take(group.len() as int) =~= views(group@));
            assert(groups.take(g as int + 1).drop_last() =~= groups.take(g as int));
            assert(groups.take(g as int + 1).last() == views(group@));
            g += 1;
        }
        assert(groups.take(self.items.len() as int) =~= groups);
        let mut names: Vec<String> = Vec::new();
        names.push("全部".to_owned());
        let mut items: Vec<Vec<String>> = Vec::new();
        let ghost av = views(all@);
        items.push(all);
        assert(views(names@) =~= seq![all_name()]);
        assert(group_views(items@) =~= seq![av]);
        *self = Self::assemble(self.slots, self.sticky_recent, names, items);
    }

    /// Keeps only the items `keep` accepts (who decides is the caller's business: whether
    /// the renderer can draw them); a group left empty goes away with its tab.
    pub fn retain<F: Fn(&str) -> bool>(&mut self, keep: F)
        requires
            old(self).wf(),
            forall|s: &str| keep.requires((s,)),
        ensures
            final(self).wf(),
            final(self).spec_size() == old(self).spec_size(),
            final(self).spec_sticky() == old(self).spec_sticky(),
            exists|asked: Seq<Seq<&str>>, answers: Seq<Seq<bool>>|
                #[trigger] answered_all(keep, old(self).spec_groups(), asked, answers) && (
                final(self).spec_names(),
                final(self).spec_groups(),
                ) == retained(old(self).spec_names(), old(self).spec_groups(), answers),
    {
        let ghost names0 = self.spec_names();
        let ghost groups0 = self.spec_groups();
        let mut names: Vec<String> = Vec::new();
        let mut items: Vec<Vec<String>> = Vec::new();
        let ghost mut asked: Seq<Seq<&str>> = Seq::empty();
        let ghost mut answers: Seq<Seq<bool>> = Seq::empty();
        let mut g: usize = 0;
        assert(names0.take(0) =~= Seq::<Seq<char>>::empty());
        assert(groups0.take(0) =~= Seq::<Seq<Seq<char>>>::empty());
        while g < self.items.len()
            invariant
                self.wf(),
                g <= self.items.len(),
                names0 == self.spec_names(),
                groups0 == self.spec_groups(),
                forall|s: &str| keep.requires((s,)),
                asked.len() == g,
                answers.len() == g,
                forall|h: int| 0 <= h < g ==> answered(keep, #[trigger] groups0[h], asked[h], answers[h]),
                (views(names@), group_views(items@)) == retained(
                    names0.take(g as int),
                    groups0.take(g as int),
                    answers,
                ),
                names@.len() == items@.len(),
            decreases self.items.len() - g,
        {
            let group = &self.items[g];
            let ghost gv = views(group@);
            assert(gv == groups0[g as int]);
            let mut kept: Vec<String> = Vec::new();
            let ghost mut gasked: Seq<&str> = Seq::empty();
            let ghost mut ganswers: Seq<bool> = Seq::empty();
            let mut i: usize = 0;
            while i < group.len()
                invariant
                    i <= group.len(),
                    gv == views(group@),
                    forall|s: &str| keep.requires((s,)),
                    gasked.len() == i,
                    ganswers.len() == i,
                    forall|j: int|
                        0 <= j < i ==> {
                            &&& (#[trigger] gasked[j])@ == gv[j]
                            &&& keep.ensures((gasked[j],), ganswers[j])
                        },
                    views(kept@) == selected(gv.take(i as int), ganswers),
                decreases group.len() - i,
            {
                let entry = &group[i];
                let s = entry.as_str();
                let answer = keep(s);
                proof {
                    lemma_selected_push(gv.take(i as int), ganswers, entry@, answer);
                    assert(gv.take(i as int).push(entry@) =~= gv.take(i as int + 1));
                }
                if answer {
                    let ghost before = views(kept@);
                    kept.push(entry.clone());
                    assert(views(kept@) =~= before.push(entry@));
                }
                proof {
                    gasked = gasked.push(s);
                    ganswers = ganswers.push(answer);
                }
                i += 1;
            }
            assert(gv.take(i as int) =~= gv);
            assert(answered(keep, gv, gasked, ganswers));
            let ghost prev_answers = answers;
            proof {
                asked = asked.push(gasked);
                answers = answers.push(ganswers);
                assert(names0.take(g as int + 1).drop_last() =~= names0.take(g as int));
                assert(groups0.take(g as int + 1).drop_last() =~= groups0.take(g as int));
                assert(answers.drop_last() =~= prev_answers);
                assert(groups0.take(g as int + 1).last() == gv);
                assert(names0.take(g as int + 1).last() == names0[g as int]);
            }
            if kept.len() > 0 {
                let ghost bn = views(names@);
                let ghost bi = group_views(items@);
                let ghost kv = views(kept@);
                names.push(self.names[g].clone());
                items.push(kept);
                assert(views(names@) =~= bn.push(names0[g as int]));
                assert(group_views(items@) =~= bi.push(kv));
            }
            g += 1;
        }
        assert(names0.take(g as int) =~= names0);
        assert(groups0.take(g as int) =~= groups0);
        assert(answered_all(keep, groups0, asked, answers));
        *self = Self::assemble(self.slots, self.sticky_recent, names, items);
    }
}

/// What opens a group in the table: `# group: ` and then the group's name.
pub open spec fn group_prefix() -> Seq<char> {
    seq!['#', ' ', 'g', 'r', 'o', 'u', 'p', ':', ' ']
}

/// Whether a line of the table opens a group.
pub open spec fn opens_group(line: Seq<char>) -> bool {
    line.len() >= 9 && line.take(9) == group_prefix()
}

/// The groups (names and items) that the lines of a table describe: `# group: name` opens
/// a group (name trimmed); empty lines and other `#` lines are skipped; any other line adds
/// its second tab-separated field to the latest group (a line without one, or before any
/// group, adds nothing).
pub open spec fn table_of(table: Seq<Seq<char>>) -> (Seq<Seq<char>>, Seq<Seq<Seq<char>>>)
    decreases table.len(),
{
    if table.len() == 0 {
        (Seq::empty(), Seq::empty())
    } else {
        let (names, groups) = table_of(table.drop_last());
        let line = table.last();
        if opens_group(line) {
            (names.push(trimmed(line.skip(9))), groups.push(Seq::empty()))
        } else if line.len() == 0 || line[0] == '#' {
            (names, groups)
        } else {
            match second_field(line) {
                Some(item) => if groups.len() > 0 {
                    (names, groups.update(groups.len() - 1, groups.last().push(item)))
                } else {
                    (names, groups)
                },
                None => (names, groups),
            }
        }
    }
}

/// Whether `line` opens a group.
fn is_group_line(line: &Vec<char>) -> (opens: bool)
    ensures
        opens == opens_group(line@),
{
    let prefix = ['#', ' ', 'g', 'r', 'o', 'u', 'p', ':', ' '];
    assert(prefix@ =~= group_prefix());
    if line.len() < 9 {
        return false;
    }
    let mut i: usize = 0;
    while i < 9
        invariant
            i <= 9,
            line@.len() >= 9,
            prefix@ == group_prefix(),
            forall|j: int| 0 <= j < i ==> line@[j] == prefix@[j],
        decreases 9 - i,
    {
        if line[i] != prefix[i] {
            assert(line@.take(9)[i as int] != group_prefix()[i as int]);
            return false;
        }
        i += 1;
    }
    assert(line@.take(9) =~= group_prefix());
    true
}

impl EmojiPanel {
    /// The panel a table holds (see [`table_of`]), cut into pages of `slots` items;
    /// `None` (the table could not be read) gives an empty panel of emoji-sized pages.
    pub fn from_text(text: Option<&str>, slots: usize, sticky_recent: bool) -> (panel: EmojiPanel)
        ensures
            panel.wf(),
            match text {
                Some(t) => {
                    &&& (panel.spec_names(), panel.spec_groups()) == table_of(lines(t@))
                    &&& panel.spec_size() == page_size(slots)
                    &&& panel.spec_sticky() == sticky_recent
                },
                None => {
                    &&& panel.spec_groups().len() == 0
                    &&& panel.spec_names().len() == 0
                    &&& panel.spec_size() == EMOJI_SLOTS
                    &&& !panel.spec_sticky()
                },
            },
    {
        let text = match text {
            Some(t) => t,
            None => return Self::new(),
        };
        let chars = chars_of(text);
        let table = split_lines(&chars);
        let ghost ls = table@.map_values(|l: Vec<char>| l@);
        let mut names: Vec<String> = Vec::new();
        let mut items: Vec<Vec<String>> = Vec::new();
        let mut i: usize = 0;
        assert(ls.take(0) =~= Seq::<Seq<char>>::empty());
        while i < table.len()
            invariant
                i <= table.len(),
                ls == table@.map_values(|l: Vec<char>| l@),
                (views(names@), group_views(items@)) == table_of(ls.take(i as int)),
                names@.len() == items@.len(),
            decreases table.len() - i,
        {
            let line = &table[i];
            assert(ls.take(i as int + 1).drop_last() =~= ls.take(i as int));
            assert(ls.take(i as int + 1).last() == line@);
            if is_group_line(line) {
                let mut rest: Vec<char> = Vec::new();
                let mut k: usize = 9;
                while k < line.len()
                    invariant
                        9 <= k <= line.len(),
                        rest@ =~= line@.subrange(9, k as int),
                    decreases line.len() - k,
                {
                    rest.push(line[k]);
                    k += 1;
                }
                assert(rest@ =~= line@.skip(9));
                let name = trim(&rest);
                let ghost bn = views(names@);
                let ghost bi = group_views(items@);
                names.push(string_of(&name));
                let nothing: Vec<String> = Vec::new();
                assert(views(nothing@) =~= Seq::<Seq<char>>::empty());
                items.push(nothing);
                assert(views(names@) =~= bn.push(trimmed(line@.skip(9))));
                assert(group_views(items@) =~= bi.push(Seq::empty()));
            } else if line.len() == 0 || line[0] == '#' {
            } else {
                match second_field_of(line) {
                    Some(field) => {
                        if items.len() > 0 {
                            let ghost bi = group_views(items@);
                            let mut last = items.pop().unwrap();
                            let ghost lv = views(last@);
                            assert(lv == bi.last());
                            last.push(string_of(&field));
                            assert(views(last@) =~= lv.push(field@));
                            items.push(last);
                            assert(group_views(items@) =~= bi.update(bi.len() - 1, bi.last().push(field@)));
                        }
                    },
                    None => {},
                }
            }
            i += 1;
        }
        assert(ls.take(table.len() as int) =~= ls);
        Self::assemble(slots, sticky_recent, names, items)
    }

    /// Where page `page` is: the name of its group and how many pages into the group it
    /// is. Used to find the same place again after the groups changed.
    pub fn place_of_page(&self, page: usize) -> (place: (Option<String>, usize))
        requires
            self.wf(),
        ensures
            page < self.spec_pages().len() ==> {
                let g = choose|g: int|
                    0 <= g < self.spec_groups().len() && first_page(self.spec_groups(), self.spec_size(), g) <= page
                        <= #[trigger] last_page(self.spec_groups(), self.spec_size(), g);
                &&& place.0 matches Some(name) && name@ == self.spec_names()[g]
                &&& place.1 == page - first_page(self.spec_groups(), self.spec_size(), g)
            },
    {
        let group = self.group_of_page(page);
        let first = self.page_of_group(group);
        let name = if group < self.names.len() {
            Some(self.names[group].clone())
        } else {
            None
        };
        proof {
            if page < self.spec_pages().len() {
                let groups = self.spec_groups();
                let sz = self.spec_size();
                let g = choose|g: int|
                    0 <= g < groups.len() && first_page(groups, sz, g) <= page <= #[trigger] last_page(groups, sz, g);
                if g < group {
                    lemma_pages_ordered(groups, sz, g, group as int);
                } else if g > group {
                    lemma_pages_ordered(groups, sz, group as int, g);
                }
            }
        }
        if page >= first {
            (name, page - first)
        } else {
            (name, 0)
        }
    }
}

/// The first group called `name`.
pub open spec fn first_named(names: Seq<Seq<char>>, name: Seq<char>, g: int) -> bool {
    0 <= g < names.len() && names[g] == name && forall|h: int| 0 <= h < g ==> names[h] != name
}

impl EmojiPanel {
    /// The page `within` pages into the first group called `name` (`None` when no group
    /// has that name, or no name is given). Finds a place again by name after groups moved.
    pub fn restore_page(&self, name: Option<&str>, within: usize) -> (page: Option<usize>)
        requires
            self.wf(),
            within + self.spec_pages().len() <= usize::MAX,
        ensures
            match page {
                Some(p) => name is Some && exists|g: int|
                    #[trigger] first_named(self.spec_names(), name->0@, g) && p == first_page(
                        self.spec_groups(),
                        self.spec_size(),
                        g,
                    ) + within,
                None => name is None || !self.spec_names().contains(name->0@),
            },
    {
        let text = match name {
            Some(n) => n,
            None => return None,
        };
        let mut g: usize = 0;
        while g < self.names.len()
            invariant
                self.wf(),
                name == Some(text),
                g <= self.names.len(),
                within + self.spec_pages().len() <= usize::MAX,
                forall|h: int| 0 <= h < g ==> self.spec_names()[h] != text@,
            decreases self.names.len() - g,
        {
            if same_text(self.names[g].as_str(), text) {
                let first = self.page_of_group(g);
                proof {
                    let groups = self.spec_groups();
                    let sz = self.spec_size();
                    lemma_paged_step(groups, sz, g as int);
                    lemma_chunks_len(groups[g as int], sz);
                    lemma_page_of_group(groups, sz, g as int, 0);
                    assert(first_named(self.spec_names(), text@, g as int));
                }
                let page = first + within;
                assert(first_named(self.spec_names(), name->0@, g as int) && page == first_page(
                    self.spec_groups(),
                    self.spec_size(),
                    g as int,
                ) + within);
                return Some(page);
            }
            g += 1;
        }
        assert(!self.spec_names().contains(text@));
        None
    }
}

/// Putting the recently used items in front never loses the user's place: a page of a
/// group other than the recent one is found again, by the group's name and how far into
/// it the page was, holding the same items as before.
pub proof fn lemma_recent_keeps_place(
    names: Seq<Seq<char>>,
    groups: Seq<Seq<Seq<char>>>,
    size: nat,
    sticky: bool,
    recent: Seq<Seq<char>>,
    g: int,
    page: int,
)
    requires
        names.len() == groups.len(),
        first_named(names, names[g], g),
        names[g] != recent_name(),
        first_page(groups, size, g) <= page <= last_page(groups, size, g),
    ensures
        ({
            let (names2, groups2) = with_recent(names, groups, sticky, recent);
            let within = page - first_page(groups, size, g);
            exists|g2: int|
                #[trigger] first_named(names2, names[g], g2) && page < paged(groups, size).len()
                    && first_page(groups2, size, g2) + within < paged(groups2, size).len()
                    && paged(groups2, size)[first_page(groups2, size, g2) + within] == paged(
                    groups,
                    size,
                )[page]
        }),
{
    let (names2, groups2) = with_recent(names, groups, sticky, recent);
    let within = page - first_page(groups, size, g);
    lemma_paged_step(groups, size, g);
    lemma_page_of_group(groups, size, g, within);
    let g2 = if recent.len() == 0 {
        if has_recent(names) && !sticky {
            g - 1
        } else {
            g
        }
    } else if has_recent(names) {
        g
    } else {
        g + 1
    };
    if recent.len() == 0 && has_recent(names) && !sticky {
        assert(g != 0);
    }
    if has_recent(names) {
        assert(g != 0);
    }
    assert(groups2[g2] == groups[g]);
    assert(names2[g2] == names[g]);
    assert forall|h: int| 0 <= h < g2 implies names2[h] != names[g] by {
        if recent.len() == 0 && has_recent(names) && !sticky {
            assert(names2[h] == names[h + 1]);
        } else if recent.len() != 0 && !has_recent(names) {
            if h > 0 {
                assert(names2[h] == names[h - 1]);
            }
        }
    }
    assert(first_named(names2, names[g], g2));
    lemma_page_of_group(groups2, size, g2, within);
}

/// Whether page `page` counts as being in the first group (pages past the end do).
pub open spec fn in_first_group(groups: Seq<Seq<Seq<char>>>, size: nat, page: int) -> bool {
    page >= paged(groups, size).len() || page <= last_page(groups, size, 0)
}

/// The group a tap on tab `index` asks for. The kaomoji page has no tab strip, only the
/// "recent" button, which toggles: from the recent group (group 0) to everything (group 1)
/// and back; an index past 0 always means everything.
pub open spec fn tab_group(groups: Seq<Seq<Seq<char>>>, size: nat, kaomoji: bool, current: int, index: int) -> int {
    if kaomoji {
        let toggled = if in_first_group(groups, size, current) { 1int } else { 0int };
        let asked = if index < 1 { index } else { 1int };
        if toggled > asked { toggled } else { asked }
    } else {
        index
    }
}

impl EmojiPanel {
    /// The page a tap on tab `index` jumps to while page `current` is shown: the first
    /// page of the group it asks for (see [`tab_group`]); `None` when there is no such group.
    pub fn tab_target(&self, kaomoji: bool, current: usize, index: usize) -> (page: Option<usize>)
        requires
            self.wf(),
        ensures
            ({
                let g = tab_group(self.spec_groups(), self.spec_size(), kaomoji, current as int, index as int);
                match page {
                    Some(p) => g < self.spec_groups().len() && p == first_page(self.spec_groups(), self.spec_size(), g),
                    None => g >= self.spec_groups().len(),
                }
            }),
    {
        let target = if kaomoji {
            let group = self.group_of_page(current);
            proof {
                let groups = self.spec_groups();
                let sz = self.spec_size();
                if current < self.spec_pages().len() {
                    lemma_pages_total(groups, sz);
                    if group > 0 {
                        lemma_pages_ordered(groups, sz, 0, group as int);
                    } else {
                        lemma_paged_step(groups, sz, 0);
                    }
                }
            }
            let toggled: usize = if group == 0 { 1 } else { 0 };
            let asked: usize = if index < 1 { index } else { 1 };
            if toggled > asked { toggled } else { asked }
        } else {
            index
        };
        if target >= self.names.len() {
            return None;
        }
        Some(self.page_of_group(target))
    }
}

} // verus!
