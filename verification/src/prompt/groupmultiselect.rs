//! Grouped multi-select: items under named groups; Space on a group
//! header toggles the whole group.

use vstd::prelude::*;
use crate::strutil::{joined, owned, parse_usize, parsed_usize, split_on, split_words, str_eq, words_of};
use crate::styles::{accent, dim, ok, paint, painted, white};
use super::base::{Frame, Key, Prompt, RenderCtx, Step, frame::rows};
use super::multiselect::{number_in, number_marks, select_one_msg};
use super::select::{empty_str, numbered_row, numbered_row_exec};
use super::settings::Settings;
use super::text::{answered_rows, crlf, opt_seq};
use super::theme::{
    frame_bot, hint, hint_inline, label, spec_answered, spec_frame_bot, spec_hint, spec_hint_inline,
    spec_label_state, BAR, CHECK_OFF, CHECK_ON, CURSOR,
};

verus! {

broadcast use vstd::string::group_string_axioms;

#[derive(Clone, Copy)]
enum Row {
    Header { group_idx: usize },
    Item { group_idx: usize, item_idx: usize },
}

spec fn row_view(r: Row) -> (int, Option<int>) {
    match r {
        Row::Header { group_idx } => (group_idx as int, None),
        Row::Item { group_idx, item_idx } => (group_idx as int, Some(item_idx as int)),
    }
}

struct ItemData {
    value: String,
    hint: Option<String>,
    checked: bool,
}

struct GroupData {
    name: String,
    items: Vec<ItemData>,
}

/// An item as (value, hint, checked).
pub type ItemView = (Seq<char>, Option<Seq<char>>, bool);

/// A group as (name, items).
pub type GroupView = (Seq<char>, Seq<ItemView>);

spec fn item_view(i: ItemData) -> ItemView {
    (i.value@, opt_seq(i.hint), i.checked)
}

spec fn items_of(v: Seq<ItemData>) -> Seq<ItemView> {
    v.map_values(|i: ItemData| item_view(i))
}

spec fn group_view(g: GroupData) -> GroupView {
    (g.name@, items_of(g.items@))
}

/// Every item of the group is checked.
pub open spec fn all_checked(items: Seq<ItemView>) -> bool {
    forall|k: int| 0 <= k < items.len() ==> (#[trigger] items[k]).2
}

/// Some item of the group is checked.
pub open spec fn any_checked(items: Seq<ItemView>) -> bool {
    exists|k: int| 0 <= k < items.len() && (#[trigger] items[k]).2
}

/// The group with every item set to `t`.
pub open spec fn set_all(items: Seq<ItemView>, t: bool) -> Seq<ItemView> {
    items.map_values(|i: ItemView| (i.0, i.1, t))
}

/// Space on a group header checks every item of the group, unless all of
/// them were checked already; then it clears them all.
pub proof fn law_header_toggle(items: Seq<ItemView>)
    requires
        items.len() > 0,
    ensures
        !all_checked(items) ==> all_checked(set_all(items, !all_checked(items))),
        all_checked(items) ==> !any_checked(set_all(items, !all_checked(items))),
        set_all(items, !all_checked(items)).len() == items.len(),
{
}

/// The number of items in each group.
pub open spec fn lens_of(gs: Seq<GroupView>) -> Seq<nat> {
    gs.map_values(|g: GroupView| g.1.len())
}

/// The navigable rows for groups of these sizes: each group's header,
/// then its items; as (group, None) or (group, Some(item)).
pub open spec fn row_list(lens: Seq<nat>) -> Seq<(int, Option<int>)>
    decreases lens.len(),
{
    if lens.len() == 0 {
        Seq::empty()
    } else {
        let g = lens.len() - 1;
        row_list(lens.drop_last()) + seq![(g, None::<int>)] + Seq::new(
            lens.last(),
            |k: int| (g, Some(k)),
        )
    }
}

/// The number of rows for groups of these sizes.
pub open spec fn total_rows(lens: Seq<nat>) -> nat
    decreases lens.len(),
{
    if lens.len() == 0 {
        0
    } else {
        total_rows(lens.drop_last()) + 1 + lens.last()
    }
}

/// Each row of `row_list(lens)` names a group of `lens` and, for an item
/// row, an item of that group; there are `total_rows(lens)` of them.
pub proof fn lemma_row_list(lens: Seq<nat>)
    ensures
        row_list(lens).len() == total_rows(lens),
        forall|k: int|
            0 <= k < row_list(lens).len() ==> 0 <= (#[trigger] row_list(lens)[k]).0 < lens.len() && (
            row_list(lens)[k].1 matches Some(i) ==> 0 <= i < lens[row_list(lens)[k].0]),
    decreases lens.len(),
{
    if lens.len() > 0 {
        let prev = lens.drop_last();
        lemma_row_list(prev);
        let g = lens.len() - 1;
        assert forall|k: int| 0 <= k < row_list(lens).len() implies 0 <= (#[trigger] row_list(
            lens,
        )[k]).0 < lens.len() && (row_list(lens)[k].1 matches Some(i) ==> 0 <= i < lens[row_list(
            lens,
        )[k].0]) by {
            let rl = row_list(lens);
            let p = row_list(prev);
            if k < p.len() {
                assert(rl[k] == p[k]);
                assert(lens[p[k].0] == prev[p[k].0]);
            } else if k == p.len() {
                assert(rl[k] == (g, None::<int>));
            } else {
                assert(rl[k] == (g, Some(k - p.len() - 1)));
            }
        }
    }
}

/// One checked item inside a [`GroupSelected`] result.
#[derive(Debug, Clone)]
pub struct GroupItem {
    /// Name of the group the item belongs to.
    pub group: String,
    /// Machine value of the item.
    pub value: String,
    /// Zero-based position within its group.
    pub index: usize,
}

/// A checked item as (group, value, index).
pub type GroupItemView = (Seq<char>, Seq<char>, usize);

pub open spec fn group_item_view(i: GroupItem) -> GroupItemView {
    (i.group@, i.value@, i.index)
}

/// The checked items of `items[..n]`, tagged with the group's name.
pub open spec fn checked_in(name: Seq<char>, items: Seq<ItemView>, n: int) -> Seq<GroupItemView>
    decreases n,
{
    if n <= 0 {
        Seq::empty()
    } else if items[n - 1].2 {
        checked_in(name, items, n - 1).push((name, items[n - 1].0, (n - 1) as usize))
    } else {
        checked_in(name, items, n - 1)
    }
}

/// The checked items of the first `n` groups, group by group.
pub open spec fn collected_upto(gs: Seq<GroupView>, n: int) -> Seq<GroupItemView>
    decreases n,
{
    if n <= 0 {
        Seq::empty()
    } else {
        collected_upto(gs, n - 1) + checked_in(gs[n - 1].0, gs[n - 1].1, gs[n - 1].1.len() as int)
    }
}

/// Every checked item, group by group, in the order they were added.
pub open spec fn collected(gs: Seq<GroupView>) -> Seq<GroupItemView> {
    collected_upto(gs, gs.len() as int)
}

/// Result of [`groupmultiselect`]: every item the user checked.
#[derive(Debug, Clone)]
pub struct GroupSelected {
    items: Vec<GroupItem>,
}

fn copy_item(i: &GroupItem) -> (r: GroupItem)
    ensures
        group_item_view(r) == group_item_view(*i),
{
    GroupItem { group: i.group.clone(), value: i.value.clone(), index: i.index }
}

impl GroupSelected {
    pub closed spec fn items_view(&self) -> Seq<GroupItemView> {
        self.items@.map_values(|i: GroupItem| group_item_view(i))
    }

    /// Every checked item.
    pub fn iter(&self) -> (r: Vec<GroupItem>)
        ensures
            r@.map_values(|i: GroupItem| group_item_view(i)) == self.items_view(),
    {
        let mut out: Vec<GroupItem> = Vec::new();
        let mut k: usize = 0;
        while k < self.items.len()
            invariant
                0 <= k <= self.items@.len(),
                out@.map_values(|i: GroupItem| group_item_view(i)) == self.items_view().take(k as int),
            decreases self.items@.len() - k,
        {
            let c = copy_item(&self.items[k]);
            let ghost prev = out@;
            let ghost cv = group_item_view(c);
            out.push(c);
            proof {
                assert(out@.map_values(|i: GroupItem| group_item_view(i)) =~= prev.map_values(
                    |i: GroupItem| group_item_view(i),
                ).push(cv));
                assert(self.items_view().take(k + 1) =~= self.items_view().take(k as int).push(cv));
            }
            k += 1;
        }
        proof {
            assert(self.items_view().take(self.items@.len() as int) =~= self.items_view());
        }
        out
    }

    /// `true` if nothing was checked.
    pub fn is_empty(&self) -> (r: bool)
        ensures
            r == (self.items_view().len() == 0),
    {
        self.items.len() == 0
    }

    /// Number of checked items across all groups.
    pub fn len(&self) -> (r: usize)
        ensures
            r == self.items_view().len(),
    {
        self.items.len()
    }

    /// Machine values of every checked item.
    pub fn values(&self) -> (r: Vec<String>)
        ensures
            r@.map_values(|x: String| x@) == self.items_view().map_values(|i: GroupItemView| i.1),
    {
        let mut out: Vec<String> = Vec::new();
        let mut k: usize = 0;
        while k < self.items.len()
            invariant
                0 <= k <= self.items@.len(),
                out@.map_values(|x: String| x@) == self.items_view().map_values(
                    |i: GroupItemView| i.1,
                ).take(k as int),
            decreases self.items@.len() - k,
        {
            let v = self.items[k].value.clone();
            let ghost prev = out@;
            let ghost vv = v@;
            out.push(v);
            proof {
                assert(out@.map_values(|x: String| x@) =~= prev.map_values(|x: String| x@).push(vv));
                assert(self.items_view().map_values(|i: GroupItemView| i.1).take(k + 1)
                    =~= self.items_view().map_values(|i: GroupItemView| i.1).take(k as int).push(vv));
            }
            k += 1;
        }
        proof {
            assert(self.items_view().map_values(|i: GroupItemView| i.1).take(
                self.items@.len() as int,
            ) =~= self.items_view().map_values(|i: GroupItemView| i.1));
        }
        out
    }

    /// Machine values of the checked items of one group.
    pub fn group_values(&self, group: &str) -> (r: Vec<String>)
        ensures
            r@.map_values(|x: String| x@) == self.items_view().filter(
                |i: GroupItemView| i.0 == group@,
            ).map_values(|i: GroupItemView| i.1),
    {
        let ghost f = |i: GroupItemView| i.0 == group@;
        let mut out: Vec<String> = Vec::new();
        let mut k: usize = 0;
        while k < self.items.len()
            invariant
                0 <= k <= self.items@.len(),
                f == (|i: GroupItemView| i.0 == group@),
                out@.map_values(|x: String| x@) == self.items_view().take(k as int).filter(f).map_values(
                    |i: GroupItemView| i.1,
                ),
            decreases self.items@.len() - k,
        {
            let ghost iv = self.items_view();
            proof {
                assert(iv.take(k + 1).drop_last() =~= iv.take(k as int));
                assert(iv.take(k + 1).last() == iv[k as int]);
            }
            if str_eq(self.items[k].group.as_str(), group) {
                let v = self.items[k].value.clone();
                let ghost prev = out@;
                let ghost vv = v@;
                out.push(v);
                proof {
                    assert(out@.map_values(|x: String| x@) =~= prev.map_values(|x: String| x@).push(vv));
                    assert(iv.take(k + 1).filter(f) =~= iv.take(k as int).filter(f).push(iv[k as int]))
                        by {
                        iv.take(k as int).lemma_filter_push(iv[k as int], f);
                        assert(iv.take(k as int).push(iv[k as int]) =~= iv.take(k + 1));
                    }
                    assert(out@.map_values(|x: String| x@) =~= iv.take(k + 1).filter(f).map_values(
                        |i: GroupItemView| i.1,
                    ));
                }
            } else {
                proof {
                    assert(iv.take(k + 1).filter(f) =~= iv.take(k as int).filter(f)) by {
                        iv.take(k as int).lemma_filter_push(iv[k as int], f);
                        assert(iv.take(k as int).push(iv[k as int]) =~= iv.take(k + 1));
                    }
                }
            }
            k += 1;
        }
        proof {
            assert(self.items_view().take(self.items@.len() as int) =~= self.items_view());
        }
        out
    }
}

/// Builder returned by [`groupmultiselect()`].
pub struct GroupMultiSelectPrompt {
    label: String,
    groups: Vec<GroupData>,
    required: bool,
    current_grp: Option<usize>,
    rows: Vec<Row>,
    cur: usize,
    settings: Settings,
}

/// Multi-select prompt with grouped options.
pub fn groupmultiselect(label: &str) -> (r: GroupMultiSelectPrompt)
    ensures
        r.label_view() == label@,
        r.groups_view() == Seq::<GroupView>::empty(),
        !r.required_view(),
        r.current_group() == None::<usize>,
        r.rows_view() == Seq::<(int, Option<int>)>::empty(),
        r.cur() == 0,
        r.settings_view().is_default_flags(),
{
    GroupMultiSelectPrompt {
        label: owned(label),
        groups: Vec::new(),
        required: false,
        current_grp: None,
        rows: Vec::new(),
        cur: 0,
        settings: Settings::default(),
    }
}

/// The key help under the groups.
pub open spec fn group_help() -> Seq<char> {
    "Space to toggle · ↑/↓ to navigate · Enter to confirm"@
}

/// The group marker: full when every item is checked, accented when some
/// are, hollow otherwise.
pub open spec fn group_bullet(items: Seq<ItemView>) -> Seq<char> {
    if all_checked(items) {
        painted(crate::styles::spec_ok(), CHECK_ON@)
    } else if any_checked(items) {
        painted(crate::styles::spec_accent(), CHECK_ON@)
    } else {
        painted(crate::styles::spec_dim(), CHECK_OFF@)
    }
}

/// A group header row.
pub open spec fn header_row(name: Seq<char>, items: Seq<ItemView>, active: bool) -> Seq<char> {
    if active {
        painted(crate::styles::spec_dim(), BAR@) + "  "@ + painted(crate::styles::spec_accent(), CURSOR@)
            + " "@ + group_bullet(items) + " "@ + painted(crate::styles::spec_white(), name)
    } else {
        painted(crate::styles::spec_dim(), BAR@) + "    "@ + group_bullet(items) + " "@ + painted(
            crate::styles::spec_dim(),
            name,
        )
    }
}

/// An item row under its group header.
pub open spec fn item_row(item: ItemView, is_last: bool, active: bool, s: &Settings) -> Seq<char> {
    let connector = painted(crate::styles::spec_dim(), if is_last { "  └"@ } else { "  │"@ });
    let bullet = if item.2 {
        painted(crate::styles::spec_ok(), CHECK_ON@)
    } else {
        painted(crate::styles::spec_dim(), CHECK_OFF@)
    };
    let sfx = spec_hint_inline(item.1, s);
    if active {
        painted(crate::styles::spec_dim(), BAR@) + "  "@ + connector + " "@ + painted(
            crate::styles::spec_accent(),
            CURSOR@,
        ) + " "@ + bullet + " "@ + painted(crate::styles::spec_white(), item.0) + sfx
    } else {
        painted(crate::styles::spec_dim(), BAR@) + "  "@ + connector + "   "@ + bullet + " "@
            + painted(crate::styles::spec_dim(), item.0) + painted(crate::styles::spec_dim(), sfx)
    }
}

/// The rows of one group whose header is row `base`.
pub open spec fn group_block(g: GroupView, base: nat, cur: nat, s: &Settings) -> Seq<Seq<char>> {
    seq![header_row(g.0, g.1, base == cur)] + Seq::new(
        g.1.len(),
        |k: int| item_row(g.1[k], k == g.1.len() - 1, base + 1 + k == cur, s),
    )
}

/// The rows of the first `n` groups.
pub open spec fn blocks_upto(gs: Seq<GroupView>, n: int, cur: nat, s: &Settings) -> Seq<Seq<char>>
    decreases n,
{
    if n <= 0 {
        Seq::empty()
    } else {
        blocks_upto(gs, n - 1, cur, s) + group_block(
            gs[n - 1],
            total_rows(lens_of(gs).take(n - 1)),
            cur,
            s,
        )
    }
}

/// The items of `items[..n]` (a group named `name` whose items are
/// numbered after `base` others) whose number some word reads as, each
/// with its position in the group.
pub open spec fn picked_in(name: Seq<char>, items: Seq<ItemView>, base: nat, words: Seq<Seq<char>>, n: int) -> Seq<GroupItemView>
    decreases n,
{
    if n <= 0 {
        Seq::empty()
    } else if number_in(words, (base + n) as nat) {
        picked_in(name, items, base, words, n - 1).push((name, items[n - 1].0, (n - 1) as usize))
    } else {
        picked_in(name, items, base, words, n - 1)
    }
}

/// What the numbers typed on a fallback line pick among the first `n`
/// groups: items are numbered 1, 2, … across the groups in order, and each
/// item whose number is typed comes once, group by group, with its
/// position in its group.
pub open spec fn picked_groups(gs: Seq<GroupView>, words: Seq<Seq<char>>, n: int) -> Seq<GroupItemView>
    decreases n,
{
    if n <= 0 {
        Seq::empty()
    } else {
        picked_groups(gs, words, n - 1) + picked_in(
            gs[n - 1].0,
            gs[n - 1].1,
            flat_upto(gs, n - 1).len(),
            words,
            gs[n - 1].1.len() as int,
        )
    }
}

/// Every item as (group name, value), numbered across groups in order.
pub open spec fn flat_upto(gs: Seq<GroupView>, n: int) -> Seq<(Seq<char>, Seq<char>)>
    decreases n,
{
    if n <= 0 {
        Seq::empty()
    } else {
        flat_upto(gs, n - 1) + gs[n - 1].1.map_values(|i: ItemView| (gs[n - 1].0, i.0))
    }
}

/// More groups number more items.
proof fn lemma_flat_len_mono(gs: Seq<GroupView>, a: int, b: int)
    requires
        0 <= a <= b,
    ensures
        flat_upto(gs, a).len() <= flat_upto(gs, b).len(),
    decreases b - a,
{
    if a < b {
        lemma_flat_len_mono(gs, a, b - 1);
    }
}

/// The rows a fallback lists for `g` when its items are numbered after
/// `base` others: `  [ name ]`, then `    N. value (hint)` per item.
pub open spec fn group_fallback_rows(g: GroupView, base: nat) -> Seq<Seq<char>> {
    seq!["  [ "@ + g.0 + " ]"@] + Seq::new(
        g.1.len(),
        |k: int| "  "@ + numbered_row((base + k + 1) as nat, g.1[k].0, g.1[k].1),
    )
}

/// The fallback rows of the groups `gs[..n]`, items numbered from 1
/// across the groups.
pub open spec fn group_listing(gs: Seq<GroupView>, n: int) -> Seq<Seq<char>>
    decreases n,
{
    if n <= 0 {
        Seq::empty()
    } else {
        group_listing(gs, n - 1) + group_fallback_rows(gs[n - 1], flat_upto(gs, n - 1).len())
    }
}

impl GroupMultiSelectPrompt {
    pub closed spec fn label_view(&self) -> Seq<char> {
        self.label@
    }

    pub closed spec fn groups_view(&self) -> Seq<GroupView> {
        self.groups@.map_values(|g: GroupData| group_view(g))
    }

    pub closed spec fn required_view(&self) -> bool {
        self.required
    }

    /// The group that `item` adds to.
    pub closed spec fn current_group(&self) -> Option<usize> {
        self.current_grp
    }

    /// The navigable rows, as (group, None) for a header and
    /// (group, Some(item)) for an item.
    pub closed spec fn rows_view(&self) -> Seq<(int, Option<int>)> {
        self.rows@.map_values(|r: Row| row_view(r))
    }

    /// The highlighted row.
    pub closed spec fn cur(&self) -> usize {
        self.cur
    }

    pub closed spec fn settings_view(&self) -> Settings {
        self.settings
    }

    /// The rows match the groups (as after [`ready`](Self::ready)).
    pub open spec fn rows_built(&self) -> bool {
        self.rows_view() == row_list(lens_of(self.groups_view()))
    }

    /// Start a new group; later `item` calls add to it.
    pub fn group(self, name: &str) -> (r: GroupMultiSelectPrompt)
        ensures
            r.groups_view() == self.groups_view().push((name@, Seq::<ItemView>::empty())),
            r.current_group() == Some((self.groups_view().len()) as usize),
            r.label_view() == self.label_view(),
            r.required_view() == self.required_view(),
            r.rows_view() == self.rows_view(),
            r.cur() == self.cur(),
            r.settings_view() == self.settings_view(),
    {
        let mut s = self;
        s.groups.push(GroupData { name: owned(name), items: Vec::new() });
        s.current_grp = Some(s.groups.len() - 1);
        proof {
            assert(items_of(Seq::<ItemData>::empty()) =~= Seq::<ItemView>::empty());
            assert(group_view(s.groups@.last()) == (name@, Seq::<ItemView>::empty()));
            assert(s.groups@.map_values(|g: GroupData| group_view(g)) =~= self.groups_view().push(
                (name@, Seq::<ItemView>::empty()),
            ));
        }
        s
    }

    /// Append an unchecked item to the current group (which must exist).
    pub fn item(self, value: &str) -> (r: GroupMultiSelectPrompt)
        requires
            self.current_group() matches Some(g) && g < self.groups_view().len(),
        ensures
            ({
                let g = self.current_group()->0 as int;
                r.groups_view() == self.groups_view().update(
                    g,
                    (
                        self.groups_view()[g].0,
                        self.groups_view()[g].1.push((value@, None::<Seq<char>>, false)),
                    ),
                )
            }),
            r.current_group() == self.current_group(),
            r.label_view() == self.label_view(),
            r.required_view() == self.required_view(),
            r.rows_view() == self.rows_view(),
            r.cur() == self.cur(),
            r.settings_view() == self.settings_view(),
    {
        let mut s = self;
        let g = match s.current_grp {
            Some(g) => g,
            None => 0,
        };
        let ghost old_gs = s.groups@;
        let mut grp = s.groups.remove(g);
        let ghost old_items = grp.items@;
        grp.items.push(ItemData { value: owned(value), hint: None, checked: false });
        proof {
            assert(items_of(grp.items@) =~= items_of(old_items).push((value@, None::<Seq<char>>, false)));
        }
        s.groups.insert(g, grp);
        proof {
            assert(s.groups@ =~= old_gs.update(g as int, grp));
            assert(s.groups@.map_values(|gd: GroupData| group_view(gd)) =~= self.groups_view().update(
                g as int,
                (
                    self.groups_view()[g as int].0,
                    self.groups_view()[g as int].1.push((value@, None::<Seq<char>>, false)),
                ),
            ));
        }
        s
    }

    /// Attach a hint to the most recently added item of the current group.
    pub fn hint(self, text: &str) -> (r: GroupMultiSelectPrompt)
        requires
            self.current_group() matches Some(g) ==> g < self.groups_view().len(),
        ensures
            ({
                match self.current_group() {
                    Some(g) => if self.groups_view()[g as int].1.len() > 0 {
                        let items = self.groups_view()[g as int].1;
                        r.groups_view() == self.groups_view().update(
                            g as int,
                            (
                                self.groups_view()[g as int].0,
                                items.update(
                                    items.len() - 1,
                                    (items.last().0, Some(text@), items.last().2),
                                ),
                            ),
                        )
                    } else {
                        r.groups_view() == self.groups_view()
                    },
                    None => r.groups_view() == self.groups_view(),
                }
            }),
            r.current_group() == self.current_group(),
            r.label_view() == self.label_view(),
            r.required_view() == self.required_view(),
            r.rows_view() == self.rows_view(),
            r.cur() == self.cur(),
            r.settings_view() == self.settings_view(),
    {
        let mut s = self;
        match s.current_grp {
            Some(g) => {
                if s.groups[g].items.len() > 0 {
                    let ghost old_gs = s.groups@;
                    let mut grp = s.groups.remove(g);
                    let ghost old_items = grp.items@;
                    let last = grp.items.pop().unwrap();
                    grp.items.push(
                        ItemData { value: last.value, hint: Some(owned(text)), checked: last.checked },
                    );
                    proof {
                        let iv = items_of(old_items);
                        assert(item_view(last) == iv.last());
                        assert(items_of(grp.items@) =~= iv.update(
                            iv.len() - 1,
                            (iv.last().0, Some(text@), iv.last().2),
                        ));
                    }
                    s.groups.insert(g, grp);
                    proof {
                        assert(s.groups@ =~= old_gs.update(g as int, grp));
                        assert(s.groups@.map_values(|gd: GroupData| group_view(gd)) =~= self.groups_view().update(
                            g as int,
                            (self.groups_view()[g as int].0, items_of(grp.items@)),
                        ));
                    }
                }
            },
            None => {},
        }
        s
    }

    /// Mark the most recently added item of the current group as checked.
    pub fn checked(self) -> (r: GroupMultiSelectPrompt)
        requires
            self.current_group() matches Some(g) ==> g < self.groups_view().len(),
        ensures
            ({
                match self.current_group() {
                    Some(g) => if self.groups_view()[g as int].1.len() > 0 {
                        let items = self.groups_view()[g as int].1;
                        r.groups_view() == self.groups_view().update(
                            g as int,
                            (
                                self.groups_view()[g as int].0,
                                items.update(
                                    items.len() - 1,
                                    (items.last().0, items.last().1, true),
                                ),
                            ),
                        )
                    } else {
                        r.groups_view() == self.groups_view()
                    },
                    None => r.groups_view() == self.groups_view(),
                }
            }),
            r.current_group() == self.current_group(),
            r.label_view() == self.label_view(),
            r.required_view() == self.required_view(),
            r.rows_view() == self.rows_view(),
            r.cur() == self.cur(),
            r.settings_view() == self.settings_view(),
    {
        let mut s = self;
        match s.current_grp {
            Some(g) => {
                if s.groups[g].items.len() > 0 {
                    let ghost old_gs = s.groups@;
                    let mut grp = s.groups.remove(g);
                    let ghost old_items = grp.items@;
                    let last = grp.items.pop().unwrap();
                    grp.items.push(ItemData { value: last.value, hint: last.hint, checked: true });
                    proof {
                        let iv = items_of(old_items);
                        assert(item_view(last) == iv.last());
                        assert(items_of(grp.items@) =~= iv.update(
                            iv.len() - 1,
                            (iv.last().0, iv.last().1, true),
                        ));
                    }
                    s.groups.insert(g, grp);
                    proof {
                        assert(s.groups@ =~= old_gs.update(g as int, grp));
                        assert(s.groups@.map_values(|gd: GroupData| group_view(gd)) =~= self.groups_view().update(
                            g as int,
                            (self.groups_view()[g as int].0, items_of(grp.items@)),
                        ));
                    }
                }
            },
            None => {},
        }
        s
    }

    /// When `true`, refuse to submit until at least one item is checked.
    pub fn required(self, r: bool) -> (out: GroupMultiSelectPrompt)
        ensures
            out.required_view() == r,
            out.groups_view() == self.groups_view(),
            out.current_group() == self.current_group(),
            out.label_view() == self.label_view(),
            out.rows_view() == self.rows_view(),
            out.cur() == self.cur(),
            out.settings_view() == self.settings_view(),
    {
        GroupMultiSelectPrompt { required: r, ..self }
    }

    /// Render and read key behaviour with `s` in place of the defaults.
    pub fn settings(self, s: Settings) -> (r: GroupMultiSelectPrompt)
        ensures
            r.settings_view() == s,
            r.required_view() == self.required_view(),
            r.groups_view() == self.groups_view(),
            r.current_group() == self.current_group(),
            r.label_view() == self.label_view(),
            r.rows_view() == self.rows_view(),
            r.cur() == self.cur(),
    {
        GroupMultiSelectPrompt { settings: s, ..self }
    }

    /// Prepare to run: lay out the rows (every group's header, then its
    /// items) and start on the first row.
    pub fn ready(self) -> (r: GroupMultiSelectPrompt)
        ensures
            r.rows_built(),
            r.rows_view() == row_list(lens_of(self.groups_view())),
            r.cur() == 0,
            r.groups_view() == self.groups_view(),
            r.current_group() == self.current_group(),
            r.label_view() == self.label_view(),
            r.required_view() == self.required_view(),
            r.settings_view() == self.settings_view(),
    {
        let rows = build_rows(&self.groups);
        GroupMultiSelectPrompt { rows, cur: 0, ..self }
    }

    /// Every checked item, group by group.
    pub fn collect(&self) -> (r: GroupSelected)
        ensures
            r.items_view() == collected(self.groups_view()),
    {
        let ghost gs = self.groups_view();
        let mut items: Vec<GroupItem> = Vec::new();
        let mut g: usize = 0;
        while g < self.groups.len()
            invariant
                gs == self.groups_view(),
                0 <= g <= self.groups@.len(),
                items@.map_values(|i: GroupItem| group_item_view(i)) == collected_upto(gs, g as int),
            decreases self.groups@.len() - g,
        {
            let grp = &self.groups[g];
            let ghost iv = items_of(grp.items@);
            let ghost base = items@.map_values(|i: GroupItem| group_item_view(i));
            proof {
                assert(group_view(self.groups@[g as int]) == gs[g as int]);
            }
            let mut k: usize = 0;
            while k < grp.items.len()
                invariant
                    iv == items_of(grp.items@),
                    0 <= k <= grp.items@.len(),
                    items@.map_values(|i: GroupItem| group_item_view(i)) == base + checked_in(
                        grp.name@,
                        iv,
                        k as int,
                    ),
                decreases grp.items@.len() - k,
            {
                proof {
                    assert(item_view(grp.items@[k as int]) == iv[k as int]);
                }
                if grp.items[k].checked {
                    let it = GroupItem {
                        group: grp.name.clone(),
                        value: grp.items[k].value.clone(),
                        index: k,
                    };
                    let ghost prev = items@;
                    let ghost itv = group_item_view(it);
                    items.push(it);
                    proof {
                        assert(items@.map_values(|i: GroupItem| group_item_view(i)) =~= prev.map_values(
                            |i: GroupItem| group_item_view(i),
                        ).push(itv));
                        assert(items@.map_values(|i: GroupItem| group_item_view(i)) =~= base
                            + checked_in(grp.name@, iv, k + 1));
                    }
                }
                k += 1;
            }
            proof {
                assert(items@.map_values(|i: GroupItem| group_item_view(i)) =~= collected_upto(
                    gs,
                    g + 1,
                ));
            }
            g += 1;
        }
        GroupSelected { items }
    }

    /// There is a group, and every group has an item.
    pub fn groups_filled(&self) -> (r: bool)
        ensures
            r == (self.groups_view().len() > 0 && forall|g: int|
                0 <= g < self.groups_view().len() ==> #[trigger] self.groups_view()[g].1.len() > 0),
    {
        if self.groups.len() == 0 {
            return false;
        }
        let ghost gs = self.groups_view();
        let mut g: usize = 0;
        while g < self.groups.len()
            invariant
                gs == self.groups_view(),
                gs.len() == self.groups@.len(),
                0 <= g <= gs.len(),
                forall|k: int| 0 <= k < g ==> #[trigger] gs[k].1.len() > 0,
            decreases gs.len() - g,
        {
            proof {
                assert(group_view(self.groups@[g as int]) == gs[g as int]);
            }
            if self.groups[g].items.len() == 0 {
                proof {
                    assert(gs[g as int].1.len() == 0);
                }
                return false;
            }
            g += 1;
        }
        true
    }

    /// The rows a fallback prints before reading the numbers: the label,
    /// then every group and its numbered items.
    pub fn fallback_rows(&self) -> (r: Vec<String>)
        ensures
            r@.map_values(|x: String| x@) == seq!["  "@ + self.label_view()] + group_listing(
                self.groups_view(),
                self.groups_view().len() as int,
            ),
    {
        let ghost gs = self.groups_view();
        let total = self.flat().len();
        let mut out: Vec<String> = Vec::new();
        let mut head = owned("  ");
        proof {
            reveal_strlit("  ");
            reveal_strlit("  [ ");
            reveal_strlit(" ]");
        }
        head.append(self.label.as_str());
        out.push(head);
        let ghost top = seq!["  "@ + self.label_view()];
        let mut num: usize = 0;
        let mut g: usize = 0;
        while g < self.groups.len()
            invariant
                gs == self.groups_view(),
                gs.len() == self.groups@.len(),
                0 <= g <= gs.len(),
                total == flat_upto(gs, gs.len() as int).len(),
                num == flat_upto(gs, g as int).len(),
                top == seq!["  "@ + self.label_view()],
                out@.map_values(|x: String| x@) == top + group_listing(gs, g as int),
            decreases gs.len() - g,
        {
            let grp = &self.groups[g];
            let ghost iv = items_of(grp.items@);
            proof {
                assert(group_view(self.groups@[g as int]) == gs[g as int]);
                lemma_flat_len_mono(gs, g + 1, gs.len() as int);
                assert(flat_upto(gs, g + 1).len() == num + iv.len());
            }
            let mut title = owned("  [ ");
            title.append(grp.name.as_str());
            title.append(" ]");
            let ghost before = out@.map_values(|x: String| x@);
            out.push(title);
            proof {
                assert(out@.map_values(|x: String| x@) =~= before.push(title@));
            }
            let ghost base = before;
            let mut k: usize = 0;
            while k < grp.items.len()
                invariant
                    iv == items_of(grp.items@),
                    0 <= k <= grp.items@.len(),
                    num + iv.len() <= total,
                    total <= usize::MAX,
                    out@.map_values(|x: String| x@) == base + seq!["  [ "@ + grp.name@ + " ]"@]
                        + Seq::new(
                        k as nat,
                        |j: int| "  "@ + numbered_row((num + j + 1) as nat, iv[j].0, iv[j].1),
                    ),
                decreases grp.items@.len() - k,
            {
                let it = &grp.items[k];
                proof {
                    assert(item_view(grp.items@[k as int]) == iv[k as int]);
                }
                let n = numbered_row_exec(num + k + 1, it.value.as_str(), &it.hint);
                let mut row = owned("  ");
                row.append(n.as_str());
                let ghost prev = out@.map_values(|x: String| x@);
                out.push(row);
                proof {
                    assert(out@.map_values(|x: String| x@) =~= prev.push(row@));
                    assert(out@.map_values(|x: String| x@) =~= base + seq!["  [ "@ + grp.name@ + " ]"@]
                        + Seq::new(
                        (k + 1) as nat,
                        |j: int| "  "@ + numbered_row((num + j + 1) as nat, iv[j].0, iv[j].1),
                    ));
                }
                k += 1;
            }
            proof {
                assert(group_fallback_rows(gs[g as int], num as nat) =~= seq![
                    "  [ "@ + grp.name@ + " ]"@,
                ] + Seq::new(
                    iv.len(),
                    |j: int| "  "@ + numbered_row((num + j + 1) as nat, iv[j].0, iv[j].1),
                ));
                assert(out@.map_values(|x: String| x@) =~= top + group_listing(gs, g + 1));
            }
            num = num + grp.items.len();
            g += 1;
        }
        out
    }

    /// The question of the fallback.
    pub fn fallback_ask(&self) -> (r: String)
        ensures
            r@ == "  Enter numbers (space-separated): "@,
    {
        owned("  Enter numbers (space-separated): ")
    }

    /// Every item as (group name, value), numbered across groups in order.
    fn flat(&self) -> (r: Vec<(String, String)>)
        ensures
            r@.map_values(|p: (String, String)| (p.0@, p.1@)) == flat_upto(
                self.groups_view(),
                self.groups_view().len() as int,
            ),
    {
        let ghost gs = self.groups_view();
        let mut all: Vec<(String, String)> = Vec::new();
        let mut g: usize = 0;
        while g < self.groups.len()
            invariant
                gs == self.groups_view(),
                0 <= g <= self.groups@.len(),
                all@.map_values(|p: (String, String)| (p.0@, p.1@)) == flat_upto(gs, g as int),
            decreases self.groups@.len() - g,
        {
            let grp = &self.groups[g];
            let ghost iv = items_of(grp.items@);
            let ghost base = all@.map_values(|p: (String, String)| (p.0@, p.1@));
            proof {
                assert(group_view(self.groups@[g as int]) == gs[g as int]);
            }
            let mut k: usize = 0;
            while k < grp.items.len()
                invariant
                    iv == items_of(grp.items@),
                    0 <= k <= grp.items@.len(),
                    all@.map_values(|p: (String, String)| (p.0@, p.1@)) == base + iv.take(
                        k as int,
                    ).map_values(|i: ItemView| (grp.name@, i.0)),
                decreases grp.items@.len() - k,
            {
                proof {
                    assert(item_view(grp.items@[k as int]) == iv[k as int]);
                }
                let pair = (grp.name.clone(), grp.items[k].value.clone());
                let ghost prev = all@;
                let ghost pv = (pair.0@, pair.1@);
                all.push(pair);
                proof {
                    assert(all@.map_values(|p: (String, String)| (p.0@, p.1@)) =~= prev.map_values(
                        |p: (String, String)| (p.0@, p.1@),
                    ).push(pv));
                    assert(iv.take(k + 1).map_values(|i: ItemView| (grp.name@, i.0)) =~= iv.take(
                        k as int,
                    ).map_values(|i: ItemView| (grp.name@, i.0)).push(pv));
                }
                k += 1;
            }
            proof {
                assert(iv.take(grp.items@.len() as int) =~= iv);
                assert(all@.map_values(|p: (String, String)| (p.0@, p.1@)) =~= flat_upto(gs, g + 1));
            }
            g += 1;
        }
        all
    }

    /// The checked set after the numbers typed on one line: items are
    /// numbered 1, 2, … across all groups in order; every item whose number
    /// some whitespace-separated word reads as is picked once, group by
    /// group, with its position in its group.
    pub fn pick_numbers(&self, line: &str) -> (r: GroupSelected)
        ensures
            r.items_view() == picked_groups(self.groups_view(), words_of(line@), self.groups_view().len() as int),
    {
        let ghost gs = self.groups_view();
        let total = self.flat().len();
        let words = split_words(line);
        let ghost ws = words@.map_values(|x: String| x@);
        let marks = number_marks(&words, total);
        let mut items: Vec<GroupItem> = Vec::new();
        let mut num: usize = 0;
        let mut g: usize = 0;
        while g < self.groups.len()
            invariant
                gs == self.groups_view(),
                gs.len() == self.groups@.len(),
                ws == words@.map_values(|x: String| x@),
                0 <= g <= gs.len(),
                total == flat_upto(gs, gs.len() as int).len(),
                marks@.len() == total,
                forall|t: int| 0 <= t < total ==> marks@[t] == number_in(ws, (t + 1) as nat),
                num == flat_upto(gs, g as int).len(),
                items@.map_values(|i: GroupItem| group_item_view(i)) == picked_groups(gs, ws, g as int),
            decreases gs.len() - g,
        {
            let grp = &self.groups[g];
            let ghost iv = items_of(grp.items@);
            proof {
                assert(group_view(self.groups@[g as int]) == gs[g as int]);
                lemma_flat_len_mono(gs, g + 1, gs.len() as int);
                assert(flat_upto(gs, g + 1).len() == num + iv.len());
            }
            let ghost base = items@.map_values(|i: GroupItem| group_item_view(i));
            let mut k: usize = 0;
            while k < grp.items.len()
                invariant
                    iv == items_of(grp.items@),
                    0 <= k <= grp.items@.len(),
                    num + iv.len() <= total,
                    marks@.len() == total,
                    forall|t: int| 0 <= t < total ==> marks@[t] == number_in(ws, (t + 1) as nat),
                    items@.map_values(|i: GroupItem| group_item_view(i)) == base + picked_in(
                        grp.name@,
                        iv,
                        num as nat,
                        ws,
                        k as int,
                    ),
                decreases grp.items@.len() - k,
            {
                proof {
                    assert(item_view(grp.items@[k as int]) == iv[k as int]);
                }
                if marks[num + k] {
                    let it = GroupItem { group: grp.name.clone(), value: grp.items[k].value.clone(), index: k };
                    let ghost prev = items@;
                    let ghost itv = group_item_view(it);
                    items.push(it);
                    proof {
                        assert(items@.map_values(|i: GroupItem| group_item_view(i)) =~= prev.map_values(
                            |i: GroupItem| group_item_view(i),
                        ).push(itv));
                    }
                }
                k += 1;
            }
            proof {
                assert(picked_groups(gs, ws, g + 1) == picked_groups(gs, ws, g as int) + picked_in(
                    grp.name@,
                    iv,
                    num as nat,
                    ws,
                    iv.len() as int,
                ));
            }
            num = num + grp.items.len();
            g += 1;
        }
        GroupSelected { items }
    }

    /// The rows of the live frame.
    pub open spec fn spec_render(&self) -> Seq<Seq<char>> {
        let s = self.settings_view();
        seq![spec_label_state(self.label_view(), false, &s), spec_hint(Seq::empty(), &s)]
            + blocks_upto(self.groups_view(), self.groups_view().len() as int, self.cur() as nat, &s)
            + seq![spec_hint(group_help(), &s), spec_frame_bot(None, &s)]
    }
}

fn build_rows(groups: &Vec<GroupData>) -> (r: Vec<Row>)
    ensures
        r@.map_values(|x: Row| row_view(x)) == row_list(
            lens_of(groups@.map_values(|g: GroupData| group_view(g))),
        ),
{
    let ghost lens = lens_of(groups@.map_values(|g: GroupData| group_view(g)));
    let mut rows: Vec<Row> = Vec::new();
    let mut gi: usize = 0;
    while gi < groups.len()
        invariant
            lens == lens_of(groups@.map_values(|g: GroupData| group_view(g))),
            0 <= gi <= groups@.len(),
            rows@.map_values(|x: Row| row_view(x)) == row_list(lens.take(gi as int)),
        decreases groups@.len() - gi,
    {
        let ghost before = rows@.map_values(|x: Row| row_view(x));
        rows.push(Row::Header { group_idx: gi });
        let n = groups[gi].items.len();
        proof {
            assert(lens[gi as int] == n);
        }
        let mut ii: usize = 0;
        while ii < n
            invariant
                0 <= ii <= n,
                rows@.map_values(|x: Row| row_view(x)) == before + seq![(gi as int, None::<int>)]
                    + Seq::new(ii as nat, |k: int| (gi as int, Some(k))),
            decreases n - ii,
        {
            let ghost prev = rows@;
            rows.push(Row::Item { group_idx: gi, item_idx: ii });
            proof {
                assert(rows@.map_values(|x: Row| row_view(x)) =~= prev.map_values(|x: Row| row_view(x)).push(
                    (gi as int, Some(ii as int)),
                ));
                assert(rows@.map_values(|x: Row| row_view(x)) =~= before + seq![(gi as int, None::<int>)]
                    + Seq::new((ii + 1) as nat, |k: int| (gi as int, Some(k))));
            }
            ii += 1;
        }
        proof {
            let t = lens.take(gi + 1);
            assert(t.drop_last() =~= lens.take(gi as int));
            assert(t.last() == n);
            assert(rows@.map_values(|x: Row| row_view(x)) =~= row_list(t));
        }
        gi += 1;
    }
    proof {
        assert(lens.take(groups@.len() as int) =~= lens);
    }
    rows
}

fn all_checked_exec(items: &Vec<ItemData>) -> (r: bool)
    ensures
        r == all_checked(items_of(items@)),
{
    let ghost iv = items_of(items@);
    let mut k: usize = 0;
    while k < items.len()
        invariant
            iv == items_of(items@),
            0 <= k <= items@.len(),
            forall|j: int| 0 <= j < k ==> (#[trigger] iv[j]).2,
        decreases items@.len() - k,
    {
        proof {
            assert(item_view(items@[k as int]) == iv[k as int]);
        }
        if !items[k].checked {
            return false;
        }
        k += 1;
    }
    true
}

fn any_checked_exec(items: &Vec<ItemData>) -> (r: bool)
    ensures
        r == any_checked(items_of(items@)),
{
    let ghost iv = items_of(items@);
    let mut k: usize = 0;
    while k < items.len()
        invariant
            iv == items_of(items@),
            0 <= k <= items@.len(),
            forall|j: int| 0 <= j < k ==> !(#[trigger] iv[j]).2,
        decreases items@.len() - k,
    {
        proof {
            assert(item_view(items@[k as int]) == iv[k as int]);
        }
        if items[k].checked {
            return true;
        }
        k += 1;
    }
    false
}

/// Set every item of the group to `t`.
fn set_all_exec(items: Vec<ItemData>, t: bool) -> (r: Vec<ItemData>)
    ensures
        items_of(r@) == set_all(items_of(items@), t),
{
    let ghost iv = items_of(items@);
    let mut src = items;
    let mut out: Vec<ItemData> = Vec::new();
    let ghost n = src@.len();
    while src.len() > 0
        invariant
            n == iv.len(),
            src@.len() + out@.len() == n,
            items_of(src@) == iv.subrange(out@.len() as int, n as int),
            items_of(out@) == set_all(iv.take(out@.len() as int), t),
        decreases src@.len(),
    {
        let ghost before = src@;
        let it = src.remove(0);
        let ghost k: int = out@.len() as int;
        proof {
            assert(item_view(it) == items_of(before)[0]);
            assert(src@ =~= before.subrange(1, before.len() as int));
            assert forall|j: int| 0 <= j < src@.len() implies #[trigger] items_of(src@)[j] == iv[k + 1 + j] by {
                assert(items_of(src@)[j] == item_view(before[j + 1]));
                assert(items_of(before)[j + 1] == iv.subrange(k, n as int)[j + 1]);
            }
            assert(items_of(src@) =~= iv.subrange(k + 1, n as int));
        }
        let ghost prev = out@;
        let ghost itv = item_view(it);
        out.push(ItemData { value: it.value, hint: it.hint, checked: t });
        proof {
            assert(itv == iv[k]);
            assert(items_of(out@) =~= items_of(prev).push((itv.0, itv.1, t)));
            assert(iv.take(k + 1) =~= iv.take(k).push(iv[k]));
            assert(items_of(out@) =~= set_all(iv.take(k + 1), t));
        }
    }
    proof {
        assert(iv.take(n as int) =~= iv);
    }
    out
}

fn header_exec(name: &str, items: &Vec<ItemData>, active: bool) -> (r: String)
    ensures
        r@ == header_row(name@, items_of(items@), active),
{
    let gbullet = if all_checked_exec(items) {
        paint(ok(), CHECK_ON)
    } else if any_checked_exec(items) {
        paint(accent(), CHECK_ON)
    } else {
        paint(dim(), CHECK_OFF)
    };
    let mut out = paint(dim(), BAR);
    if active {
        out.append("  ");
        let c = paint(accent(), CURSOR);
        out.append(c.as_str());
        out.append(" ");
        out.append(gbullet.as_str());
        out.append(" ");
        let n = paint(white(), name);
        out.append(n.as_str());
    } else {
        out.append("    ");
        out.append(gbullet.as_str());
        out.append(" ");
        let n = paint(dim(), name);
        out.append(n.as_str());
    }
    out
}

fn item_exec(it: &ItemData, is_last: bool, active: bool, s: &Settings) -> (r: String)
    ensures
        r@ == item_row(item_view(*it), is_last, active, s),
{
    let connector = if is_last {
        paint(dim(), "  └")
    } else {
        paint(dim(), "  │")
    };
    let bullet = if it.checked {
        paint(ok(), CHECK_ON)
    } else {
        paint(dim(), CHECK_OFF)
    };
    let h: Option<&str> = match &it.hint {
        Some(x) => Some(x.as_str()),
        None => None,
    };
    let sfx = hint_inline(h, s);
    proof {
        assert(super::theme::opt_view(h) == opt_seq(it.hint));
    }
    let mut out = paint(dim(), BAR);
    out.append("  ");
    out.append(connector.as_str());
    if active {
        out.append(" ");
        let c = paint(accent(), CURSOR);
        out.append(c.as_str());
        out.append(" ");
        out.append(bullet.as_str());
        out.append(" ");
        let v = paint(white(), it.value.as_str());
        out.append(v.as_str());
        out.append(sfx.as_str());
    } else {
        out.append("   ");
        out.append(bullet.as_str());
        out.append(" ");
        let v = paint(dim(), it.value.as_str());
        out.append(v.as_str());
        let d = paint(dim(), sfx.as_str());
        out.append(d.as_str());
    }
    out
}

impl Prompt for GroupMultiSelectPrompt {
    type Output = GroupSelected;

    open spec fn handle_ok(&self, key: Key) -> bool {
        &&& self.rows_built()
        &&& self.cur() < self.rows_view().len()
    }

    open spec fn render_ok(&self) -> bool {
        self.rows_built()
    }

    /// Up/Down move between rows without wrapping; Space toggles the item
    /// under the cursor, or on a header checks every item of the group
    /// unless all are checked already, in which case it clears them; Enter
    /// submits the checked items (refused when required and none are);
    /// Escape and Ctrl-C cancel.
    fn handle(&mut self, key: Key) -> (r: Step<GroupSelected>)
        ensures
            final(self).label_view() == old(self).label_view(),
            final(self).required_view() == old(self).required_view(),
            final(self).current_group() == old(self).current_group(),
            final(self).rows_view() == old(self).rows_view(),
            final(self).settings_view() == old(self).settings_view(),
            final(self).rows_built(),
            ({
                let p = old(self).cur();
                let gs = old(self).groups_view();
                let last = old(self).rows_view().len() - 1;
                if key == Key::Up {
                    r is Continue && final(self).groups_view() == gs && final(self).cur() == if p > 0 {
                        p - 1
                    } else {
                        p as int
                    }
                } else if key == Key::Down {
                    r is Continue && final(self).groups_view() == gs && final(self).cur() == if p
                        < last {
                        p + 1
                    } else {
                        p as int
                    }
                } else if key == Key::Char(' ') {
                    &&& r is Continue
                    &&& final(self).cur() == p
                    &&& match old(self).rows_view()[p as int] {
                        (g, None) => final(self).groups_view() == gs.update(
                            g as int,
                            (gs[g as int].0, set_all(gs[g as int].1, !all_checked(gs[g as int].1))),
                        ),
                        (g, Some(i)) => {
                            let it = gs[g as int].1[i as int];
                            final(self).groups_view() == gs.update(
                                g as int,
                                (gs[g as int].0, gs[g as int].1.update(i as int, (it.0, it.1, !it.2))),
                            )
                        },
                    }
                } else if key == Key::Enter {
                    &&& final(self).groups_view() == gs
                    &&& final(self).cur() == p
                    &&& if old(self).required_view() && collected(gs).len() == 0 {
                        r matches Step::Reject(m) && m@ == select_one_msg()
                    } else {
                        r matches Step::Submit(v) && v.items_view() == collected(gs)
                    }
                } else if key == Key::Escape || key == Key::Interrupt {
                    r is Cancel && final(self).groups_view() == gs && final(self).cur() == p
                } else {
                    r is Continue && final(self).groups_view() == gs && final(self).cur() == p
                }
            }),
    {
        let last = self.rows.len() - 1;
        if key == Key::Up {
            if self.cur > 0 {
                self.cur = self.cur - 1;
            }
            Step::Continue
        } else if key == Key::Down {
            if self.cur < last {
                self.cur = self.cur + 1;
            }
            Step::Continue
        } else if key == Key::Char(' ') {
            let ghost gs = self.groups_view();
            proof {
                lemma_row_list(lens_of(gs));
                assert(row_view(self.rows@[self.cur as int]) == self.rows_view()[self.cur as int]);
            }
            let ghost old_groups = self.groups@;
            match self.rows[self.cur] {
                Row::Header { group_idx } => {
                    let g = group_idx;
                    let grp = self.groups.remove(g);
                    proof {
                        assert(group_view(grp) == gs[g as int]);
                    }
                    let t = !all_checked_exec(&grp.items);
                    let items = set_all_exec(grp.items, t);
                    let ng = GroupData { name: grp.name, items };
                    self.groups.insert(g, ng);
                    proof {
                        assert(self.groups@ =~= old_groups.update(g as int, ng));
                        assert(self.groups_view() =~= gs.update(
                            g as int,
                            (gs[g as int].0, set_all(gs[g as int].1, !all_checked(gs[g as int].1))),
                        ));
                        assert(lens_of(self.groups_view()) =~= lens_of(gs));
                    }
                },
                Row::Item { group_idx, item_idx } => {
                    let g = group_idx;
                    let i = item_idx;
                    let mut grp = self.groups.remove(g);
                    proof {
                        assert(group_view(grp) == gs[g as int]);
                        assert(lens_of(gs)[g as int] == gs[g as int].1.len());
                    }
                    let ghost old_items = grp.items@;
                    let it = grp.items.remove(i);
                    proof {
                        assert(item_view(it) == items_of(old_items)[i as int]);
                    }
                    grp.items.insert(i, ItemData { value: it.value, hint: it.hint, checked: !it.checked });
                    let ghost ng = grp;
                    self.groups.insert(g, grp);
                    proof {
                        let ov = items_of(old_items);
                        assert(items_of(ng.items@) =~= ov.update(
                            i as int,
                            (ov[i as int].0, ov[i as int].1, !ov[i as int].2),
                        ));
                        assert(self.groups@ =~= old_groups.update(g as int, ng));
                        assert(self.groups_view() =~= gs.update(
                            g as int,
                            (
                                gs[g as int].0,
                                gs[g as int].1.update(
                                    i as int,
                                    (
                                        gs[g as int].1[i as int].0,
                                        gs[g as int].1[i as int].1,
                                        !gs[g as int].1[i as int].2,
                                    ),
                                ),
                            ),
                        ));
                        assert(lens_of(self.groups_view()) =~= lens_of(gs));
                    }
                },
            }
            Step::Continue
        } else if key == Key::Enter {
            let result = self.collect();
            if self.required && result.is_empty() {
                proof {
                    reveal_strlit("Select at least one option");
                }
                Step::Reject(owned("Select at least one option"))
            } else {
                Step::Submit(result)
            }
        } else if key == Key::Escape || key == Key::Interrupt {
            Step::Cancel
        } else {
            Step::Continue
        }
    }

    /// Label, spacer, each group's header and items, key help, bottom row.
    fn render(&self, _ctx: RenderCtx) -> (r: Frame)
        ensures
            rows(r) == self.spec_render(),
    {
        let ghost gs = self.groups_view();
        let ghost lens = lens_of(gs);
        let s = &self.settings;
        let mut f: Frame = Vec::new();
        f.push(label(self.label.as_str(), s));
        f.push(hint(empty_str(), s));
        let ghost head = rows(f);
        proof {
            lemma_row_list(lens);
            assert(self.rows_view().len() == self.rows.len());
        }
        let mut row_i: usize = 0;
        let mut g: usize = 0;
        while g < self.groups.len()
            invariant
                gs == self.groups_view(),
                lens == lens_of(gs),
                *s == self.settings_view(),
                0 <= g <= self.groups@.len(),
                row_i == total_rows(lens.take(g as int)),
                total_rows(lens) <= usize::MAX,
                head == seq![spec_label_state(self.label_view(), false, s), spec_hint(Seq::empty(), s)],
                rows(f) == head + blocks_upto(gs, g as int, self.cur() as nat, s),
            decreases self.groups@.len() - g,
        {
            let grp = &self.groups[g];
            proof {
                assert(group_view(self.groups@[g as int]) == gs[g as int]);
                lemma_total_rows_take(lens, g as int);
            }
            let ghost base_rows = rows(f);
            let ghost iv = items_of(grp.items@);
            let ghost base = row_i as nat;
            f.push(header_exec(grp.name.as_str(), &grp.items, row_i == self.cur));
            row_i = row_i + 1;
            let count = grp.items.len();
            let mut ii: usize = 0;
            while ii < count
                invariant
                    iv == items_of(grp.items@),
                    count == grp.items@.len(),
                    *s == self.settings_view(),
                    0 <= ii <= count,
                    row_i == base + 1 + ii,
                    base + 1 + count <= usize::MAX,
                    rows(f) == base_rows + group_block((grp.name@, iv), base, self.cur() as nat, s).take(
                        1 + ii,
                    ),
                decreases count - ii,
            {
                proof {
                    assert(item_view(grp.items@[ii as int]) == iv[ii as int]);
                }
                let row = item_exec(&grp.items[ii], ii == count - 1, row_i == self.cur, s);
                let ghost prev = f@;
                f.push(row);
                proof {
                    let blk = group_block((grp.name@, iv), base, self.cur() as nat, s);
                    assert(blk[1 + ii] == row@);
                    assert(rows(f) =~= prev.map_values(|x: String| x@).push(row@));
                    assert(blk.take(2 + ii) =~= blk.take(1 + ii).push(row@));
                }
                row_i = row_i + 1;
                ii += 1;
            }
            proof {
                let blk = group_block((grp.name@, iv), base, self.cur() as nat, s);
                assert(blk.take(1 + count) =~= blk);
                assert(lens.take(g + 1).drop_last() =~= lens.take(g as int));
                assert(rows(f) =~= head + blocks_upto(gs, g + 1, self.cur() as nat, s));
            }
            g += 1;
        }
        let help = "Space to toggle · ↑/↓ to navigate · Enter to confirm";
        proof {
            reveal_strlit("Space to toggle · ↑/↓ to navigate · Enter to confirm");
        }
        f.push(hint(help, s));
        f.push(frame_bot(None, s));
        proof {
            assert(rows(f) =~= self.spec_render());
        }
        f
    }

    /// Question, the checked values (or `none`), connector.
    fn render_answered(&self, value: &GroupSelected) -> (r: Frame)
        ensures
            rows(r) == split_on(
                spec_answered(
                    self.label_view(),
                    if value.items_view().len() == 0 {
                        "none"@
                    } else {
                        joined(value.items_view().map_values(|i: GroupItemView| i.1), ", "@)
                    },
                    &self.settings_view(),
                ),
                crlf(),
            ),
    {
        let summary = if value.is_empty() {
            proof {
                reveal_strlit("none");
            }
            owned("none")
        } else {
            let vs = value.values();
            proof {
                reveal_strlit(", ");
            }
            crate::strutil::join(&vs, ", ")
        };
        answered_rows(self.label.as_str(), summary.as_str(), &self.settings)
    }
}

/// `total_rows` of a longer prefix adds the next group's header and items.
proof fn lemma_total_rows_take(lens: Seq<nat>, g: int)
    requires
        0 <= g < lens.len(),
    ensures
        total_rows(lens.take(g + 1)) == total_rows(lens.take(g)) + 1 + lens[g],
        total_rows(lens.take(g + 1)) <= total_rows(lens),
    decreases lens.len() - g,
{
    assert(lens.take(g + 1).drop_last() =~= lens.take(g));
    if g + 1 < lens.len() {
        lemma_total_rows_take(lens, g + 1);
    } else {
        assert(lens.take(g + 1) =~= lens);
    }
}

} // verus!
