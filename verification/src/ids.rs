//! Lists of record identities.

use vstd::prelude::*;

verus! {

/// The identities of `ids` with every repetition left out: each identity
/// stands where it first stood.
pub open spec fn distinct(ids: Seq<u128>) -> Seq<u128>
    decreases ids.len(),
{
    if ids.len() == 0 {
        ids
    } else {
        let front = distinct(ids.drop_last());
        if front.contains(ids.last()) {
            front
        } else {
            front.push(ids.last())
        }
    }
}

/// Leaving out the repetitions loses no identity and adds none, and no
/// identity stands twice in what is left.
pub proof fn lemma_distinct(ids: Seq<u128>)
    ensures
        distinct(ids).no_duplicates(),
        distinct(ids).len() <= ids.len(),
        forall|id: u128| distinct(ids).contains(id) <==> ids.contains(id),
    decreases ids.len(),
{
    if ids.len() > 0 {
        let front = ids.drop_last();
        lemma_distinct(front);
        let kept = distinct(front);
        assert forall|id: u128| distinct(ids).contains(id) <==> ids.contains(id) by {
            if ids.contains(id) {
                let k = choose|k: int| 0 <= k < ids.len() && ids[k] == id;
                if k < front.len() {
                    assert(front[k] == id);
                    assert(front.contains(id));
                    assert(kept.contains(id));
                    let j = choose|j: int| 0 <= j < kept.len() && kept[j] == id;
                    assert(distinct(ids)[j] == id);
                } else {
                    if !kept.contains(id) {
                        assert(distinct(ids)[kept.len() as int] == id);
                    }
                }
            }
            if distinct(ids).contains(id) {
                let j = choose|j: int| 0 <= j < distinct(ids).len() && distinct(ids)[j] == id;
                if j < kept.len() {
                    assert(kept[j] == id);
                    assert(kept.contains(id));
                    assert(front.contains(id));
                    let k = choose|k: int| 0 <= k < front.len() && front[k] == id;
                    assert(ids[k] == id);
                } else {
                    assert(ids[ids.len() - 1] == id);
                }
            }
        }
    }
}

/// A list in which no identity stands twice is left as it is.
pub proof fn lemma_distinct_of_distinct(ids: Seq<u128>)
    requires
        ids.no_duplicates(),
    ensures
        distinct(ids) == ids,
    decreases ids.len(),
{
    if ids.len() > 0 {
        let front = ids.drop_last();
        lemma_distinct_of_distinct(front);
        if front.contains(ids.last()) {
            let k = choose|k: int| 0 <= k < front.len() && front[k] == ids.last();
            assert(ids[k] == ids[ids.len() - 1]);
        }
        assert(front.push(ids.last()) =~= ids);
    }
}

/// Whether `id` stands in `ids`.
pub fn contains_id(ids: &Vec<u128>, id: u128) -> (found: bool)
    ensures
        found == ids@.contains(id),
{
    let mut i: usize = 0;
    while i < ids.len()
        invariant
            i <= ids@.len(),
            forall|j: int| 0 <= j < i ==> ids@[j] != id,
        decreases ids@.len() - i,
    {
        if ids[i] == id {
            return true;
        }
        i += 1;
    }
    false
}

/// Leaves out the repetitions of `ids`, keeping the first of each identity
/// in its place.
pub fn dedup_ids(ids: &Vec<u128>) -> (kept: Vec<u128>)
    ensures
        kept@ == distinct(ids@),
{
    let mut kept: Vec<u128> = Vec::new();
    let mut i: usize = 0;
    while i < ids.len()
        invariant
            i <= ids@.len(),
            kept@ == distinct(ids@.take(i as int)),
        decreases ids@.len() - i,
    {
        assert(ids@.take(i + 1).drop_last() =~= ids@.take(i as int));
        if !contains_id(&kept, ids[i]) {
            kept.push(ids[i]);
        }
        i += 1;
    }
    assert(ids@.take(i as int) =~= ids@);
    kept
}

} // verus!
