//! The selection of records in the list that is shown, as clicks with and
//! without Ctrl and Shift build it.
//!
//! A click with Shift selects the range between the pivot and the clicked
//! record. A click with Ctrl toggles the clicked record and leaves the others
//! as they are. A click with neither selects the clicked record alone. Every
//! click without Shift makes the clicked record the pivot of later ranges.

use vstd::prelude::*;
use crate::display::{views, DisplayFile, DisplayFileView};
use crate::ids::contains_id;

verus! {

/// The modifier keys that were held when a click was made.
#[derive(Clone, Copy, Debug, PartialEq, Eq, Structural)]
pub struct Modifiers {
    pub ctrl_key: bool,
    pub shift_key: bool,
}

impl Modifiers {
    /// No modifier is held.
    pub fn new() -> (m: Modifiers)
        ensures
            !m.ctrl_key,
            !m.shift_key,
    {
        Modifiers { ctrl_key: false, shift_key: false }
    }
}

/// What the selection remembers between clicks.
#[derive(Debug)]
pub struct Selection {
    /// The identities of the selected records in the order in which they were
    /// selected. One identity can stand in it more than once.
    pub selected_files: Vec<u128>,
    /// The index from which a click with Shift spans its range.
    pub shift_select_pivot: Option<usize>,
    /// The index of the last click.
    pub last_selected_idx: Option<usize>,
}

/// The selection as a mathematical value.
pub struct SelectionView {
    pub selected: Seq<u128>,
    pub pivot: Option<usize>,
    pub last: Option<usize>,
}

impl View for Selection {
    type V = SelectionView;

    open spec fn view(&self) -> SelectionView {
        SelectionView {
            selected: self.selected_files@,
            pivot: self.shift_select_pivot,
            last: self.last_selected_idx,
        }
    }
}

/// The three ways in which a click changes the selection.
pub enum ClickMode {
    /// Select the range between the pivot and the click.
    Range,
    /// Toggle the clicked record.
    Toggle,
    /// Select the clicked record alone.
    Single,
}

/// The record `record` with its flag set to `selected`.
pub open spec fn marked(record: DisplayFileView, selected: bool) -> DisplayFileView {
    DisplayFileView { selected, ..record }
}

/// The list `list` in which every record whose identity stands in `ids` is
/// not selected.
pub open spec fn deselected(list: Seq<DisplayFileView>, ids: Seq<u128>) -> Seq<DisplayFileView> {
    Seq::new(
        list.len(),
        |i: int|
            if ids.contains(list[i].id) {
                marked(list[i], false)
            } else {
                list[i]
            },
    )
}

/// The list `list` in which the records from `lo` to `hi`, both included, are
/// selected.
pub open spec fn range_selected(list: Seq<DisplayFileView>, lo: int, hi: int) -> Seq<
    DisplayFileView,
> {
    Seq::new(
        list.len(),
        |i: int|
            if lo <= i <= hi {
                marked(list[i], true)
            } else {
                list[i]
            },
    )
}

/// The identities of the records from `lo` to `hi`, both included, in the
/// order of the list.
pub open spec fn range_ids(list: Seq<DisplayFileView>, lo: int, hi: int) -> Seq<u128> {
    Seq::new((hi - lo + 1) as nat, |k: int| list[lo + k].id)
}

/// The smaller of two indices.
pub open spec fn lower(a: int, b: int) -> int {
    if a <= b {
        a
    } else {
        b
    }
}

/// The larger of two indices.
pub open spec fn upper(a: int, b: int) -> int {
    if a <= b {
        b
    } else {
        a
    }
}

/// A list of records together with the selection made in it.
pub struct Pane {
    pub records: Seq<DisplayFileView>,
    pub selection: SelectionView,
}

impl Pane {
    /// The way in which a click with the modifiers `m` acts: with Shift, and a
    /// pivot to start from, it spans a range; with Shift and no pivot it acts
    /// as a click without modifiers; with Ctrl alone it toggles.
    pub open spec fn mode(self, m: Modifiers) -> ClickMode {
        if m.shift_key {
            if self.selection.pivot is Some {
                ClickMode::Range
            } else {
                ClickMode::Single
            }
        } else if m.ctrl_key {
            ClickMode::Toggle
        } else {
            ClickMode::Single
        }
    }

    /// A click on the record at `idx` with the modifiers `m` can be made: the
    /// record exists, and so does the pivot where a range starts from it.
    pub open spec fn accepts(self, idx: int, m: Modifiers) -> bool {
        &&& 0 <= idx < self.records.len()
        &&& self.mode(m) is Range ==> self.selection.pivot->0 < self.records.len()
    }

    /// A click with the modifiers `m` does away with the selection that was
    /// there before it sets its own.
    pub open spec fn replaces(self, m: Modifiers) -> bool {
        match self.mode(m) {
            ClickMode::Range => !m.ctrl_key,
            ClickMode::Toggle => false,
            ClickMode::Single => true,
        }
    }

    /// The records after a click without modifiers on `idx`. Every record of
    /// the selection is deselected. Then the clicked record is selected if the
    /// selection held more than one record, and toggled otherwise.
    pub open spec fn single_records(self, idx: int) -> Seq<DisplayFileView> {
        let flag = if self.selection.selected.len() > 1 {
            true
        } else {
            !self.records[idx].selected
        };
        deselected(self.records, self.selection.selected).update(
            idx,
            marked(self.records[idx], flag),
        )
    }

    /// The records after a click with Shift on `idx`: the range between the
    /// pivot and `idx` is selected, on top of the selection that was there if
    /// Ctrl is held too, and in its place if not.
    pub open spec fn range_records(self, idx: int, ctrl: bool) -> Seq<DisplayFileView> {
        let pivot = self.selection.pivot->0 as int;
        let base = if ctrl {
            self.records
        } else {
            deselected(self.records, self.selection.selected)
        };
        range_selected(base, lower(pivot, idx), upper(pivot, idx))
    }

    /// The records after a click with Ctrl on `idx`: the flag of the clicked
    /// record is flipped.
    pub open spec fn toggle_records(self, idx: int) -> Seq<DisplayFileView> {
        self.records.update(idx, marked(self.records[idx], !self.records[idx].selected))
    }

    /// The records after a click on `idx` with the modifiers `m`.
    pub open spec fn clicked_records(self, idx: int, m: Modifiers) -> Seq<DisplayFileView> {
        match self.mode(m) {
            ClickMode::Range => self.range_records(idx, m.ctrl_key),
            ClickMode::Toggle => self.toggle_records(idx),
            ClickMode::Single => self.single_records(idx),
        }
    }

    /// The identities of the selection after a click on `idx` with the
    /// modifiers `m`, in the order of selection.
    pub open spec fn clicked_ids(self, idx: int, m: Modifiers) -> Seq<u128> {
        let before = self.selection.selected;
        match self.mode(m) {
            ClickMode::Range => {
                let pivot = self.selection.pivot->0 as int;
                let added = range_ids(self.records, lower(pivot, idx), upper(pivot, idx));
                if m.ctrl_key {
                    before + added
                } else {
                    added
                }
            },
            ClickMode::Toggle => before.push(self.records[idx].id),
            ClickMode::Single => seq![self.records[idx].id],
        }
    }

    /// The list and its selection after a click on the record at `idx` with
    /// the modifiers `m`. A click without Shift moves the pivot to `idx`; one
    /// with Shift leaves it where it is.
    pub open spec fn click(self, idx: int, m: Modifiers) -> Pane {
        Pane {
            records: self.clicked_records(idx, m),
            selection: SelectionView {
                selected: self.clicked_ids(idx, m),
                pivot: if m.shift_key {
                    self.selection.pivot
                } else {
                    Some(idx as usize)
                },
                last: Some(idx as usize),
            },
        }
    }

    /// Every record that is flagged as selected has its identity in the
    /// selection.
    pub open spec fn covered(self) -> bool {
        forall|i: int|
            0 <= i < self.records.len() && (#[trigger] self.records[i]).selected
                ==> self.selection.selected.contains(self.records[i].id)
    }
}

/// The click with Shift alone.
pub open spec fn shift_only() -> Modifiers {
    Modifiers { ctrl_key: false, shift_key: true }
}

/// The click with Ctrl alone.
pub open spec fn ctrl_only() -> Modifiers {
    Modifiers { ctrl_key: true, shift_key: false }
}

/// The click without modifiers.
pub open spec fn plain() -> Modifiers {
    Modifiers { ctrl_key: false, shift_key: false }
}

/// No click flags a record whose identity the selection does not hold: where
/// the flags were covered by the selection before a click, they are covered
/// after it.
pub proof fn lemma_click_keeps_flags_covered(pane: Pane, idx: int, m: Modifiers)
    requires
        pane.covered(),
        pane.accepts(idx, m),
    ensures
        pane.click(idx, m).covered(),
{
    let after = pane.click(idx, m);
    let before_ids = pane.selection.selected;
    assert forall|i: int| 0 <= i < after.records.len() && (#[trigger] after.records[i]).selected
        implies after.selection.selected.contains(after.records[i].id) by {
        match pane.mode(m) {
            ClickMode::Range => {
                let pivot = pane.selection.pivot->0 as int;
                let lo = lower(pivot, idx);
                let hi = upper(pivot, idx);
                let added = range_ids(pane.records, lo, hi);
                if lo <= i <= hi {
                    assert(added[i - lo] == pane.records[i].id);
                    if m.ctrl_key {
                        assert((before_ids + added)[before_ids.len() + i - lo]
                            == pane.records[i].id);
                    }
                } else {
                    assert(pane.records[i].selected);
                    let k = choose|k: int|
                        0 <= k < before_ids.len() && before_ids[k] == pane.records[i].id;
                    assert((before_ids + added)[k] == pane.records[i].id);
                }
            },
            ClickMode::Toggle => {
                if i == idx {
                    assert(before_ids.push(pane.records[idx].id)[before_ids.len() as int]
                        == pane.records[idx].id);
                } else {
                    assert(pane.records[i].selected);
                    let k = choose|k: int|
                        0 <= k < before_ids.len() && before_ids[k] == pane.records[i].id;
                    assert(before_ids.push(pane.records[idx].id)[k] == pane.records[i].id);
                }
            },
            ClickMode::Single => {
                assert(i == idx);
                assert(seq![pane.records[idx].id][0] == pane.records[idx].id);
            },
        }
    }
}

/// A click with Shift alone selects the records between the pivot and the
/// clicked record, both included, and no other record.
pub proof fn lemma_shift_click_selects_the_range(pane: Pane, idx: int)
    requires
        pane.covered(),
        pane.selection.pivot is Some,
        pane.accepts(idx, shift_only()),
    ensures
        forall|j: int|
            0 <= j < pane.records.len() ==> ((#[trigger] pane.click(
                idx,
                shift_only(),
            ).records[j]).selected <==> lower(pane.selection.pivot->0 as int, idx) <= j <= upper(
                pane.selection.pivot->0 as int,
                idx,
            )),
{
}

/// The range of a click with Shift does not depend on the direction: with
/// the pivot at `a` and the click at `b` the same records are selected, in the
/// same order, as with the pivot at `b` and the click at `a`.
pub proof fn lemma_range_ignores_direction(
    pane: Pane,
    mirror: Pane,
    a: usize,
    b: usize,
    m: Modifiers,
)
    requires
        m.shift_key,
        a < pane.records.len(),
        b < pane.records.len(),
        mirror.records == pane.records,
        mirror.selection.selected == pane.selection.selected,
        pane.selection.pivot == Some(a),
        mirror.selection.pivot == Some(b),
    ensures
        pane.click(b as int, m).records == mirror.click(a as int, m).records,
        pane.click(b as int, m).selection.selected == mirror.click(
            a as int,
            m,
        ).selection.selected,
{
}

/// A click without modifiers on one end and a click with Shift on the other
/// select the records between the two, both included, and no other record,
/// whichever end is clicked first.
pub proof fn lemma_click_and_shift_click_select_between(pane: Pane, a: usize, b: usize)
    requires
        pane.covered(),
        a < pane.records.len(),
        b < pane.records.len(),
    ensures
        forall|j: int|
            0 <= j < pane.records.len() ==> ((#[trigger] pane.click(a as int, plain()).click(
                b as int,
                shift_only(),
            ).records[j]).selected <==> lower(a as int, b as int) <= j <= upper(
                a as int,
                b as int,
            )),
        forall|j: int|
            0 <= j < pane.records.len() ==> (pane.click(a as int, plain()).click(
                b as int,
                shift_only(),
            ).records[j].selected <==> (#[trigger] pane.click(b as int, plain()).click(
                a as int,
                shift_only(),
            ).records[j]).selected),
{
    lemma_click_keeps_flags_covered(pane, a as int, plain());
    lemma_click_keeps_flags_covered(pane, b as int, plain());
    lemma_shift_click_selects_the_range(pane.click(a as int, plain()), b as int);
    lemma_shift_click_selects_the_range(pane.click(b as int, plain()), a as int);
}

/// Two clicks with Ctrl on two records that were not selected select both,
/// and add their identities to the selection in the order of the clicks.
pub proof fn lemma_ctrl_clicks_add_in_order(pane: Pane, i: int, j: int)
    requires
        0 <= i < pane.records.len(),
        0 <= j < pane.records.len(),
        i != j,
        !pane.records[i].selected,
        !pane.records[j].selected,
    ensures
        ({
            let after = pane.click(i, ctrl_only()).click(j, ctrl_only());
            &&& after.records[i].selected
            &&& after.records[j].selected
            &&& after.selection.selected == pane.selection.selected.push(
                pane.records[i].id,
            ).push(pane.records[j].id)
            &&& forall|k: int|
                0 <= k < pane.records.len() && k != i && k != j ==> after.records[k]
                    == pane.records[k]
        }),
{
}

/// A click without modifiers, made while the selection holds two records or
/// more, leaves the clicked record selected and no other, whether or not the
/// clicked record was selected before.
pub proof fn lemma_click_among_many_selects_one(pane: Pane, idx: int)
    requires
        pane.covered(),
        0 <= idx < pane.records.len(),
        pane.selection.selected.len() >= 2,
    ensures
        ({
            let after = pane.click(idx, plain());
            &&& forall|j: int|
                0 <= j < pane.records.len() ==> ((#[trigger] after.records[j]).selected <==> j
                    == idx)
            &&& after.selection.selected == seq![pane.records[idx].id]
        }),
{
}

/// Where two records with different identities are flagged, the selection
/// holds two identities or more.
pub proof fn lemma_two_selected_records_fill_the_selection(pane: Pane, a: int, b: int)
    requires
        pane.covered(),
        0 <= a < pane.records.len(),
        0 <= b < pane.records.len(),
        pane.records[a].selected,
        pane.records[b].selected,
        pane.records[a].id != pane.records[b].id,
    ensures
        pane.selection.selected.len() >= 2,
{
    let ids = pane.selection.selected;
    assert(ids.contains(pane.records[a].id));
    assert(ids.contains(pane.records[b].id));
    let ka = choose|k: int| 0 <= k < ids.len() && ids[k] == pane.records[a].id;
    let kb = choose|k: int| 0 <= k < ids.len() && ids[k] == pane.records[b].id;
    assert(ka != kb);
}

/// A click without modifiers on the one record that is selected deselects it:
/// no record is selected afterwards.
pub proof fn lemma_click_on_the_sole_selected_record_deselects(pane: Pane, idx: int)
    requires
        pane.covered(),
        0 <= idx < pane.records.len(),
        pane.records[idx].selected,
        pane.selection.selected.len() <= 1,
    ensures
        forall|j: int|
            0 <= j < pane.records.len() ==> !(#[trigger] pane.click(
                idx,
                plain(),
            ).records[j]).selected,
{
}

/// A click without modifiers on a record that is not selected, made while the
/// selection holds one record at most, selects the clicked record alone.
pub proof fn lemma_click_selects_an_unselected_record(pane: Pane, idx: int)
    requires
        pane.covered(),
        0 <= idx < pane.records.len(),
        !pane.records[idx].selected,
        pane.selection.selected.len() <= 1,
    ensures
        forall|j: int|
            0 <= j < pane.records.len() ==> ((#[trigger] pane.click(
                idx,
                plain(),
            ).records[j]).selected <==> j == idx),
{
}

/// Deselects every record of `list` whose identity stands in `ids`.
pub fn deselect_all(list: &mut Vec<DisplayFile>, ids: &Vec<u128>)
    ensures
        views(final(list)@) == deselected(views(old(list)@), ids@),
        final(list)@.len() == old(list)@.len(),
{
    let ghost before = views(list@);
    let mut i: usize = 0;
    while i < list.len()
        invariant
            i <= list@.len(),
            list@.len() == before.len(),
            forall|k: int| 0 <= k < i ==> views(list@)[k] == deselected(before, ids@)[k],
            forall|k: int| i <= k < list@.len() ==> views(list@)[k] == before[k],
        decreases list@.len() - i,
    {
        if contains_id(ids, list[i].id) {
            list[i].selected = false;
        }
        i += 1;
    }
    assert(views(list@) =~= deselected(before, ids@));
}

impl Selection {
    /// The selection in which nothing is selected and no click was made.
    pub fn new() -> (s: Selection)
        ensures
            s@.selected.len() == 0,
            s@.pivot is None,
            s@.last is None,
    {
        Selection { selected_files: Vec::new(), shift_select_pivot: None, last_selected_idx: None }
    }

    /// Whether a click on `idx` with the modifiers `m` can be made in a list
    /// of `len` records.
    pub fn accepts(&self, len: usize, idx: usize, m: Modifiers) -> (ok: bool)
        ensures
            ok == (idx < len && (m.shift_key && self@.pivot is Some ==> self@.pivot->0 < len)),
    {
        if idx >= len {
            return false;
        }
        if m.shift_key {
            match self.shift_select_pivot {
                Some(pivot) => pivot < len,
                None => true,
            }
        } else {
            true
        }
    }
}

/// The click without modifiers.
fn select_single(list: &mut Vec<DisplayFile>, selection: &mut Selection, idx: usize)
    requires
        idx < old(list)@.len(),
    ensures
        views(final(list)@) == (Pane {
            records: views(old(list)@),
            selection: old(selection)@,
        }).single_records(idx as int),
        final(selection).selected_files@ == seq![old(list)@[idx as int].id],
        final(selection).shift_select_pivot == old(selection).shift_select_pivot,
        final(selection).last_selected_idx == old(selection).last_selected_idx,
{
    let ghost before = views(old(list)@);
    let initial_state = list[idx].selected;
    let len: usize = selection.selected_files.len();
    deselect_all(list, &selection.selected_files);
    let ghost cleared = views(list@);
    assert(cleared[idx as int] == deselected(before, old(selection).selected_files@)[idx as int]);
    assert(cleared[idx as int].id == before[idx as int].id);
    selection.selected_files.clear();
    selection.selected_files.push(list[idx].id);
    let flag = if len > 1 {
        true
    } else {
        !initial_state
    };
    list[idx].selected = flag;
    assert(views(list@) =~= cleared.update(idx as int, marked(cleared[idx as int], flag)));
    assert(marked(cleared[idx as int], flag) == marked(before[idx as int], flag));
    assert(selection.selected_files@ =~= seq![before[idx as int].id]);
}

/// The click with Shift, from the pivot `pivot`.
fn select_range(
    list: &mut Vec<DisplayFile>,
    selection: &mut Selection,
    pivot: usize,
    idx: usize,
    ctrl: bool,
)
    requires
        idx < old(list)@.len(),
        pivot < old(list)@.len(),
        old(selection).shift_select_pivot == Some(pivot),
    ensures
        views(final(list)@) == (Pane {
            records: views(old(list)@),
            selection: old(selection)@,
        }).range_records(idx as int, ctrl),
        final(selection).selected_files@ == (if ctrl {
            old(selection).selected_files@
        } else {
            Seq::<u128>::empty()
        }) + range_ids(views(old(list)@), lower(pivot as int, idx as int), upper(pivot as int, idx as int)),
        final(selection).shift_select_pivot == old(selection).shift_select_pivot,
        final(selection).last_selected_idx == old(selection).last_selected_idx,
{
    let lo: usize = if idx > pivot {
        pivot
    } else {
        idx
    };
    let hi: usize = if idx > pivot {
        idx
    } else {
        pivot
    };
    if !ctrl {
        deselect_all(list, &selection.selected_files);
        selection.selected_files.clear();
    }
    let ghost base = views(list@);
    let ghost base_ids = selection.selected_files@;
    let ghost origin = views(old(list)@);
    let len: usize = list.len();
    let mut i: usize = lo;
    while i <= hi
        invariant
            lo <= i <= hi + 1,
            hi < len,
            len == list@.len(),
            list@.len() == base.len(),
            base.len() == origin.len(),
            forall|k: int| 0 <= k < base.len() ==> base[k].id == origin[k].id,
            views(list@) =~= range_selected(base, lo as int, i - 1),
            selection.selected_files@ =~= base_ids + range_ids(origin, lo as int, i - 1),
            selection.shift_select_pivot == old(selection).shift_select_pivot,
            selection.last_selected_idx == old(selection).last_selected_idx,
        decreases hi + 1 - i,
    {
        let ghost shown = views(list@);
        selection.selected_files.push(list[i].id);
        list[i].selected = true;
        assert(views(list@) =~= shown.update(i as int, marked(shown[i as int], true)));
        i += 1;
    }
}

/// Takes a click on the record at `idx` of the list that is shown, made with
/// the modifiers `modifiers`.
pub fn select_file(
    list: &mut Vec<DisplayFile>,
    selection: &mut Selection,
    idx: usize,
    modifiers: Modifiers,
)
    requires
        (Pane { records: views(old(list)@), selection: old(selection)@ }).accepts(
            idx as int,
            modifiers,
        ),
    ensures
        (Pane { records: views(final(list)@), selection: final(selection)@ }) == (Pane {
            records: views(old(list)@),
            selection: old(selection)@,
        }).click(idx as int, modifiers),
{
    if modifiers.shift_key {
        match selection.shift_select_pivot {
            Some(pivot) => select_range(list, selection, pivot, idx, modifiers.ctrl_key),
            None => select_single(list, selection, idx),
        }
    } else if modifiers.ctrl_key {
        selection.selected_files.push(list[idx].id);
        let flag = list[idx].selected;
        list[idx].selected = !flag;
        assert(views(list@) =~= (Pane {
            records: views(old(list)@),
            selection: old(selection)@,
        }).toggle_records(idx as int));
    } else {
        select_single(list, selection, idx);
    }
    if !modifiers.shift_key {
        selection.shift_select_pivot = Some(idx);
    }
    selection.last_selected_idx = Some(idx);
}

} // verus!
