//! The records that are shown: each wraps a snapshot with an identity of its
//! own and the flag of the selection.

use vstd::prelude::*;
use crate::entry::{FileInfo, FileInfoView};

verus! {

/// One shown entry. The `id` is drawn when the record is made and stays with
/// it whatever becomes of the snapshot: it is the key by which a list of
/// records is compared with the list that was shown before.
#[derive(Debug)]
pub struct DisplayFile {
    pub id: u128,
    pub info: FileInfo,
    pub selected: bool,
}

/// A record as a mathematical value.
pub struct DisplayFileView {
    pub id: u128,
    pub info: FileInfoView,
    pub selected: bool,
}

impl View for DisplayFile {
    type V = DisplayFileView;

    open spec fn view(&self) -> DisplayFileView {
        DisplayFileView { id: self.id, info: self.info@, selected: self.selected }
    }
}

/// The records of a list as mathematical values.
pub open spec fn views(list: Seq<DisplayFile>) -> Seq<DisplayFileView> {
    Seq::new(list.len(), |i: int| list[i]@)
}

/// The record that is made of `info` under the identity `id`: not selected.
pub open spec fn fresh_record(id: u128, info: FileInfoView) -> DisplayFileView {
    DisplayFileView { id, info, selected: false }
}

/// `rand::random` at the type `u128`: one value from the thread's generator.
/// Nothing is claimed of the value.
#[verifier::external_body]
fn random_id() -> u128 {
    rand::random::<u128>()
}

impl DisplayFile {
    /// The snapshot of this record.
    pub fn info(&self) -> (info: FileInfo)
        ensures
            info@ == self@.info,
    {
        self.info.clone()
    }

    /// Puts the snapshot `info` in the place of the one that the record held.
    /// The identity and the flag of the record stay as they are.
    pub fn replace_info(&mut self, info: FileInfo)
        ensures
            final(self)@ == (DisplayFileView { info: info@, ..old(self)@ }),
    {
        self.info = info;
    }

    /// Wraps `info` under the identity `id`.
    pub fn with_id(id: u128, info: FileInfo) -> (record: DisplayFile)
        ensures
            record@ == fresh_record(id, info@),
    {
        DisplayFile { id, info, selected: false }
    }
}

impl Clone for DisplayFile {
    fn clone(&self) -> (copy: DisplayFile)
        ensures
            copy@ == self@,
    {
        DisplayFile { id: self.id, info: self.info.clone(), selected: self.selected }
    }
}

impl From<FileInfo> for DisplayFile {
    /// Wraps `info` under an identity that is drawn at random, never derived
    /// from the snapshot.
    fn from(info: FileInfo) -> (record: DisplayFile)
        ensures
            record@.info == info@,
            !record@.selected,
    {
        DisplayFile::with_id(random_id(), info)
    }
}

/// The conversion draws the identity at random, so its result is no function
/// of the snapshot: it obeys no spec function.
impl vstd::std_specs::convert::FromSpecImpl<FileInfo> for DisplayFile {
    open spec fn obeys_from_spec() -> bool {
        false
    }

    open spec fn from_spec(info: FileInfo) -> DisplayFile {
        DisplayFile { id: 0, info, selected: false }
    }
}

/// Wraps each snapshot of a listing into a record of its own, in the order of
/// the listing.
pub fn wrap(snapshots: Vec<FileInfo>) -> (records: Vec<DisplayFile>)
    ensures
        records@.len() == snapshots@.len(),
        forall|i: int|
            0 <= i < records@.len() ==> (#[trigger] records@[i])@.info == snapshots@[i]@
                && !records@[i]@.selected,
{
    let ghost infos = snapshots@;
    let mut records: Vec<DisplayFile> = Vec::new();
    for info in iter: snapshots
        invariant
            iter.seq() == infos,
            records@.len() == iter.index(),
            forall|k: int|
                0 <= k < iter.index() ==> (#[trigger] records@[k])@.info == infos[k]@
                    && !records@[k]@.selected,
    {
        records.push(DisplayFile::from(info));
    }
    records
}

/// Some record of `list` has the identity `id`.
pub open spec fn has_id(list: Seq<DisplayFileView>, id: u128) -> bool {
    exists|i: int| 0 <= i < list.len() && list[i].id == id
}

/// The record at `i` is the first of `list` with the identity `id`.
pub open spec fn is_first_with_id(list: Seq<DisplayFileView>, id: u128, i: int) -> bool {
    &&& 0 <= i < list.len()
    &&& list[i].id == id
    &&& forall|j: int| 0 <= j < i ==> list[j].id != id
}

/// The index of the first record of `list` with the identity `id`, where
/// there is one.
pub open spec fn first_index(list: Seq<DisplayFileView>, id: u128) -> int {
    choose|i: int| is_first_with_id(list, id, i)
}

/// Where `list` has a record with the identity `id`, `first_index` is the one
/// index at which the first of them stands.
pub proof fn lemma_first_index(list: Seq<DisplayFileView>, id: u128)
    requires
        has_id(list, id),
    ensures
        is_first_with_id(list, id, first_index(list, id)),
        forall|i: int| is_first_with_id(list, id, i) ==> i == first_index(list, id),
{
    let k = choose|i: int| 0 <= i < list.len() && list[i].id == id;
    lemma_first_exists(list, id, k);
    let f = first_index(list, id);
    assert forall|i: int| is_first_with_id(list, id, i) implies i == f by {
        if i < f {
            assert(list[i].id != id);
        } else if f < i {
            assert(list[f].id != id);
        }
    }
}

proof fn lemma_first_exists(list: Seq<DisplayFileView>, id: u128, k: int)
    requires
        0 <= k < list.len(),
        list[k].id == id,
    ensures
        exists|i: int| is_first_with_id(list, id, i),
    decreases k,
{
    if forall|j: int| 0 <= j < k ==> list[j].id != id {
        assert(is_first_with_id(list, id, k));
    } else {
        let j = choose|j: int| 0 <= j < k && list[j].id == id;
        lemma_first_exists(list, id, j);
    }
}

/// Looks for the record with the identity `id`: the index of the first one, or
/// `None` where the list holds none.
pub fn find_by_id(list: &Vec<DisplayFile>, id: u128) -> (found: Option<usize>)
    ensures
        found is Some <==> has_id(views(list@), id),
        found matches Some(i) ==> i == first_index(views(list@), id) && is_first_with_id(
            views(list@),
            id,
            i as int,
        ),
{
    let mut i: usize = 0;
    while i < list.len()
        invariant
            i <= list@.len(),
            forall|j: int| 0 <= j < i ==> views(list@)[j].id != id,
        decreases list@.len() - i,
    {
        if list[i].id == id {
            proof {
                assert(views(list@)[i as int].id == id);
                assert(is_first_with_id(views(list@), id, i as int));
                lemma_first_index(views(list@), id);
            }
            return Some(i);
        }
        i += 1;
    }
    None
}

/// The list without the first of its records with the identity `id`; the
/// list as it is where it has no such record.
pub open spec fn without(list: Seq<DisplayFileView>, id: u128) -> Seq<DisplayFileView> {
    if has_id(list, id) {
        list.remove(first_index(list, id))
    } else {
        list
    }
}

/// What is left of `list` when, for each identity of `ids` in turn, the first
/// record with that identity is taken out.
pub open spec fn without_all(list: Seq<DisplayFileView>, ids: Seq<u128>) -> Seq<DisplayFileView>
    decreases ids.len(),
{
    if ids.len() == 0 {
        list
    } else {
        without(without_all(list, ids.drop_last()), ids.last())
    }
}

/// The records that are taken out of `list` when, for each identity of `ids`
/// in turn, the first record with that identity is taken out: in the order
/// of `ids`.
pub open spec fn taken(list: Seq<DisplayFileView>, ids: Seq<u128>) -> Seq<DisplayFileView>
    decreases ids.len(),
{
    if ids.len() == 0 {
        Seq::empty()
    } else {
        let left = without_all(list, ids.drop_last());
        let before = taken(list, ids.drop_last());
        if has_id(left, ids.last()) {
            before.push(left[first_index(left, ids.last())])
        } else {
            before
        }
    }
}

/// Takes out of `list`, for each identity of `ids` in turn, the first record
/// with that identity, and returns the records taken out, in the order of
/// `ids`. An identity that no record has is passed over.
pub fn remove_by_ids(list: &mut Vec<DisplayFile>, ids: &Vec<u128>) -> (removed: Vec<DisplayFile>)
    ensures
        views(final(list)@) == without_all(views(old(list)@), ids@),
        views(removed@) == taken(views(old(list)@), ids@),
{
    let ghost origin = views(list@);
    let mut removed: Vec<DisplayFile> = Vec::new();
    let mut k: usize = 0;
    assert(views(removed@) =~= taken(origin, ids@.take(0)));
    while k < ids.len()
        invariant
            k <= ids@.len(),
            views(list@) == without_all(origin, ids@.take(k as int)),
            views(removed@) == taken(origin, ids@.take(k as int)),
        decreases ids@.len() - k,
    {
        let ghost left = views(list@);
        let ghost before = views(removed@);
        assert(ids@.take(k + 1).drop_last() =~= ids@.take(k as int));
        match find_by_id(list, ids[k]) {
            Some(i) => {
                let record = list.remove(i);
                removed.push(record);
                assert(views(list@) =~= left.remove(i as int));
                assert(views(removed@) =~= before.push(left[i as int]));
            },
            None => {},
        }
        k += 1;
    }
    assert(ids@.take(k as int) =~= ids@);
    removed
}

/// Taking the first record of one identity out of a list leaves the records
/// of every other identity as they were: the list has a record of the other
/// identity if and only if it had one, and the first of them is the same
/// record.
pub proof fn lemma_without_keeps_other_ids(list: Seq<DisplayFileView>, id: u128, other: u128)
    requires
        id != other,
    ensures
        has_id(without(list, id), other) <==> has_id(list, other),
        has_id(list, other) ==> without(list, id)[first_index(without(list, id), other)]
            == list[first_index(list, other)],
{
    if has_id(list, id) {
        lemma_first_index(list, id);
        let cut = first_index(list, id);
        let rest = list.remove(cut);
        if has_id(list, other) {
            lemma_first_index(list, other);
            let f = first_index(list, other);
            let g = if f < cut {
                f
            } else {
                f - 1
            };
            assert(rest[g] == list[f]);
            assert forall|j: int| 0 <= j < g implies rest[j].id != other by {
                if j < cut {
                    assert(rest[j] == list[j]);
                } else {
                    assert(rest[j] == list[j + 1]);
                }
            }
            assert(is_first_with_id(rest, other, g));
            assert(has_id(rest, other));
            lemma_first_index(rest, other);
        }
        if has_id(rest, other) {
            let j = choose|j: int| 0 <= j < rest.len() && rest[j].id == other;
            if j < cut {
                assert(list[j].id == other);
            } else {
                assert(list[j + 1].id == other);
            }
        }
    }
}

/// Taking records out by identities of which `id` is none leaves the records
/// of the identity `id` as they were.
pub proof fn lemma_without_all_keeps_other_ids(
    list: Seq<DisplayFileView>,
    ids: Seq<u128>,
    id: u128,
)
    requires
        !ids.contains(id),
    ensures
        has_id(without_all(list, ids), id) <==> has_id(list, id),
        has_id(list, id) ==> without_all(list, ids)[first_index(without_all(list, ids), id)]
            == list[first_index(list, id)],
    decreases ids.len(),
{
    if ids.len() > 0 {
        let front = ids.drop_last();
        assert(ids[ids.len() - 1] == ids.last());
        assert forall|k: int| 0 <= k < front.len() implies front[k] != id by {
            assert(ids[k] == front[k]);
        }
        lemma_without_all_keeps_other_ids(list, front, id);
        lemma_without_keeps_other_ids(without_all(list, front), ids.last(), id);
    }
}

/// The identities of `ids` that some record of `list` has, in the order of
/// `ids`.
pub open spec fn matching(list: Seq<DisplayFileView>, ids: Seq<u128>) -> Seq<u128> {
    ids.filter(|id: u128| has_id(list, id))
}

/// Where no identity stands twice in `ids`, each identity of `ids` that some
/// record of `list` has takes exactly one record out, the first with that
/// identity, and the other identities take none: the records taken out are
/// the first records of the matching identities, one for each, in the order
/// of `ids`.
pub proof fn lemma_each_match_is_taken_once(list: Seq<DisplayFileView>, ids: Seq<u128>)
    requires
        ids.no_duplicates(),
    ensures
        taken(list, ids).len() == matching(list, ids).len(),
        forall|k: int|
            0 <= k < taken(list, ids).len() ==> #[trigger] taken(list, ids)[k] == list[first_index(
                list,
                matching(list, ids)[k],
            )],
        without_all(list, ids).len() + taken(list, ids).len() == list.len(),
    decreases ids.len(),
{
    let pred = |id: u128| has_id(list, id);
    if ids.len() == 0 {
        assert(ids.filter(pred) =~= Seq::<u128>::empty()) by {
            ids.lemma_filter_len(pred);
        }
    } else {
        let front = ids.drop_last();
        let last = ids.last();
        assert(front.no_duplicates()) by {
            assert forall|i: int, j: int|
                0 <= i < front.len() && 0 <= j < front.len() && i != j implies front[i]
                != front[j] by {
                assert(front[i] == ids[i] && front[j] == ids[j]);
            }
        }
        assert(!front.contains(last)) by {
            if front.contains(last) {
                let k = choose|k: int| 0 <= k < front.len() && front[k] == last;
                assert(ids[k] == ids[ids.len() - 1]);
            }
        }
        lemma_each_match_is_taken_once(list, front);
        lemma_without_all_keeps_other_ids(list, front, last);
        assert(front.push(last) =~= ids);
        front.lemma_filter_push(last, pred);
        let left = without_all(list, front);
        if has_id(list, last) {
            lemma_first_index(left, last);
            assert(matching(list, ids) == matching(list, front).push(last));
        } else {
            assert(matching(list, ids) == matching(list, front));
        }
    }
}

/// Taking records out neither loses nor doubles one: the records that are
/// left and those that were taken out are, together, the records of the list.
pub proof fn lemma_removal_conserves_records(list: Seq<DisplayFileView>, ids: Seq<u128>)
    ensures
        list.to_multiset() == without_all(list, ids).to_multiset().add(
            taken(list, ids).to_multiset(),
        ),
    decreases ids.len(),
{
    broadcast use vstd::seq_lib::group_to_multiset_ensures;

    if ids.len() == 0 {
        assert(taken(list, ids).to_multiset() =~= vstd::multiset::Multiset::empty());
        assert(list.to_multiset() =~= without_all(list, ids).to_multiset().add(
            taken(list, ids).to_multiset(),
        ));
    } else {
        let front = ids.drop_last();
        lemma_removal_conserves_records(list, front);
        let left = without_all(list, front);
        let before = taken(list, front);
        if has_id(left, ids.last()) {
            lemma_first_index(left, ids.last());
            let cut = first_index(left, ids.last());
            vstd::seq_lib::to_multiset_remove(left, cut);
            assert(left.to_multiset() =~= left.remove(cut).to_multiset().insert(left[cut]));
            assert(before.push(left[cut]).to_multiset() =~= before.to_multiset().insert(
                left[cut],
            ));
            assert(list.to_multiset() =~= without_all(list, ids).to_multiset().add(
                taken(list, ids).to_multiset(),
            ));
        }
    }
}

/// Taking records out invents none: every record that is left, and every
/// record that was taken out, is a record of the list.
pub proof fn lemma_removal_stays_within_list(list: Seq<DisplayFileView>, ids: Seq<u128>)
    ensures
        without_all(list, ids).len() <= list.len(),
        forall|k: int|
            0 <= k < without_all(list, ids).len() ==> list.contains(
                #[trigger] without_all(list, ids)[k],
            ),
        forall|k: int|
            0 <= k < taken(list, ids).len() ==> list.contains(#[trigger] taken(list, ids)[k]),
    decreases ids.len(),
{
    if ids.len() > 0 {
        let front = ids.drop_last();
        lemma_removal_stays_within_list(list, front);
        let left = without_all(list, front);
        let before = taken(list, front);
        if has_id(left, ids.last()) {
            lemma_first_index(left, ids.last());
            let cut = first_index(left, ids.last());
            assert(list.contains(left[cut]));
            assert forall|k: int| 0 <= k < left.remove(cut).len() implies list.contains(
                #[trigger] left.remove(cut)[k],
            ) by {
                if k < cut {
                    assert(left.remove(cut)[k] == left[k]);
                } else {
                    assert(left.remove(cut)[k] == left[k + 1]);
                }
            }
            assert forall|k: int| 0 <= k < taken(list, ids).len() implies list.contains(
                #[trigger] taken(list, ids)[k],
            ) by {
                if k < before.len() {
                    assert(taken(list, ids)[k] == before[k]);
                }
            }
        }
    }
}

} // verus!
