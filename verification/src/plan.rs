//! The ingest planner: labeled batches and a destination-side hash index
//! become an ordered list of copy/skip decisions. Planning is a pure
//! transform; it never touches the filesystem.

use vstd::prelude::*;
use crate::batch::{has_ts, TemporalBatch};
use crate::hash::ContentHash;
use crate::media::MediaItem;
use crate::naming::{filename_chars, generate_filename};
use crate::strutil::{ext_of, extension_of};
use crate::time::Timestamp;

verus! {

/// What the copier must do with one record.
#[derive(Clone, Copy, Debug, PartialEq, Eq, Structural)]
pub enum CopyAction {
    /// Copy the file to its destination.
    Copy,
    /// Skip it: the same content is already in the archive.
    SkipDuplicate,
}

/// One planned destination assignment: where a record's file comes from,
/// into which folder and under which name it goes, and whether it is
/// copied at all.
#[derive(Clone, Debug)]
pub struct CopyPlanEntry {
    pub source_path: String,
    pub dest_folder: String,
    pub dest_filename: String,
    pub action: CopyAction,
}

/// Whether the index holds the digest `h`.
pub open spec fn index_has_hash(index: Seq<ContentHash>, h: Seq<u8>) -> bool {
    exists|i: int| 0 <= i < index.len() && (#[trigger] index[i])@ == h
}

/// Looks a digest up in the destination-side index.
pub fn index_contains(index: &Vec<ContentHash>, h: &ContentHash) -> (r: bool)
    ensures
        r == index_has_hash(index@, h@),
{
    let mut i: usize = 0;
    while i < index.len()
        invariant
            i <= index@.len(),
            forall|q: int| 0 <= q < i ==> (#[trigger] index@[q])@ != h@,
        decreases index@.len() - i,
    {
        if index[i].equals(h) {
            return true;
        }
        i = i + 1;
    }
    false
}

/// The capture instant used for naming at plan time: the record's own, or
/// the caller-supplied fallback instant for a record without one.
pub open spec fn resolved_time(item: MediaItem, fallback: Timestamp) -> Timestamp {
    if item.timestamp is Some {
        item.timestamp->0
    } else {
        fallback
    }
}

/// The extension used for naming: the path's own, or "jpg" for a path
/// without one — a deliberate, documented default of the ingest workflow.
pub open spec fn planned_ext(path: Seq<char>) -> Seq<char> {
    match ext_of(path) {
        Some(e) => e,
        None => "jpg"@,
    }
}

/// A record's capture instant, when present, is calendar-valid.
pub open spec fn item_ts_wf(item: MediaItem) -> bool {
    has_ts(item) ==> item.timestamp->0.wf()
}

/// What the planner promises of the entry for one record under one label:
/// source and folder taken from the record, the destination name built
/// from the resolved instant, the label and the extension, and the action
/// decided by whether the record's digest is already indexed.
pub open spec fn entry_for(
    e: CopyPlanEntry,
    item: MediaItem,
    label: Seq<char>,
    fallback: Timestamp,
    index: Seq<ContentHash>,
) -> bool {
    &&& e.source_path@ == item.path@
    &&& e.dest_folder@ == item.folder_path@
    &&& e.dest_filename@ == filename_chars(
        resolved_time(item, fallback),
        label,
        planned_ext(item.path@),
    )
    &&& e.action == (if index_has_hash(index, item.hash@) {
        CopyAction::SkipDuplicate
    } else {
        CopyAction::Copy
    })
}

/// The records of one labeled batch, each paired with the batch's label.
pub open spec fn labeled_records(b: TemporalBatch, label: Seq<char>) -> Seq<(MediaItem, Seq<char>)> {
    b.items@.map_values(|it: MediaItem| (it, label))
}

/// All records of a labeled batch list, in order, with their labels.
pub open spec fn plan_records(batches: Seq<(TemporalBatch, String)>) -> Seq<(MediaItem, Seq<char>)>
    decreases batches.len(),
{
    if batches.len() == 0 {
        Seq::empty()
    } else {
        plan_records(batches.drop_last()) + labeled_records(
            batches.last().0,
            batches.last().1@,
        )
    }
}

/// Plans one record under one label.
pub fn plan_item(item: &MediaItem, label: &str, fallback: &Timestamp, dest_index: &Vec<ContentHash>) -> (e:
    CopyPlanEntry)
    requires
        item_ts_wf(*item),
        fallback.wf(),
    ensures
        entry_for(e, *item, label@, *fallback, dest_index@),
{
    let ts: Timestamp = match &item.timestamp {
        Some(tv) => *tv,
        None => *fallback,
    };
    let ext: &str = match extension_of(item.path.as_str()) {
        Some(x) => x,
        None => "jpg",
    };
    let dest_filename = generate_filename(&ts, label, ext);
    let action = if index_contains(dest_index, &item.hash) {
        CopyAction::SkipDuplicate
    } else {
        CopyAction::Copy
    };
    CopyPlanEntry {
        source_path: item.path.clone(),
        dest_folder: item.folder_path.clone(),
        dest_filename,
        action,
    }
}

/// Produces the ordered copy plan for a labeled batch list: one entry per
/// record, batch by batch in order. A record whose digest is already in
/// the destination index is marked SkipDuplicate; every other record is
/// marked Copy. Records without a capture instant are named from the
/// caller-supplied fallback instant.
pub fn build_copy_plan(
    batches: &Vec<(TemporalBatch, String)>,
    dest_index: &Vec<ContentHash>,
    fallback: &Timestamp,
) -> (plan: Vec<CopyPlanEntry>)
    requires
        fallback.wf(),
        forall|bi: int, ij: int|
            0 <= bi < batches@.len() && 0 <= ij < batches@[bi].0.items@.len() ==> item_ts_wf(
                #[trigger] batches@[bi].0.items@[ij],
            ),
    ensures
        plan@.len() == plan_records(batches@).len(),
        forall|k: int|
            0 <= k < plan@.len() ==> entry_for(
                #[trigger] plan@[k],
                plan_records(batches@)[k].0,
                plan_records(batches@)[k].1,
                *fallback,
                dest_index@,
            ),
{
    let mut plan: Vec<CopyPlanEntry> = Vec::new();
    let ghost mut recs: Seq<(MediaItem, Seq<char>)> = Seq::empty();
    let mut bi: usize = 0;
    proof {
        assert(batches@.take(0) =~= Seq::<(TemporalBatch, String)>::empty());
        assert(plan_records(batches@.take(0)) =~= Seq::<(MediaItem, Seq<char>)>::empty());
    }
    while bi < batches.len()
        invariant
            bi <= batches@.len(),
            fallback.wf(),
            forall|b: int, ij: int|
                0 <= b < batches@.len() && 0 <= ij < batches@[b].0.items@.len() ==> item_ts_wf(
                    #[trigger] batches@[b].0.items@[ij],
                ),
            recs == plan_records(batches@.take(bi as int)),
            plan@.len() == recs.len(),
            forall|k: int|
                0 <= k < plan@.len() ==> entry_for(
                    #[trigger] plan@[k],
                    recs[k].0,
                    recs[k].1,
                    *fallback,
                    dest_index@,
                ),
        decreases batches@.len() - bi,
    {
        let b = &batches[bi];
        let ghost lab = labeled_records(b.0, b.1@);
        let mut ij: usize = 0;
        proof {
            assert(lab.take(0) =~= Seq::<(MediaItem, Seq<char>)>::empty());
            assert(recs + lab.take(0) =~= recs);
        }
        let ghost recs0 = recs;
        while ij < b.0.items.len()
            invariant
                bi < batches@.len(),
                *b == batches@[bi as int],
                lab == labeled_records(b.0, b.1@),
                ij <= b.0.items@.len(),
                fallback.wf(),
                forall|b2: int, ij2: int|
                    0 <= b2 < batches@.len() && 0 <= ij2 < batches@[b2].0.items@.len()
                        ==> item_ts_wf(#[trigger] batches@[b2].0.items@[ij2]),
                recs0 == plan_records(batches@.take(bi as int)),
                recs == recs0 + lab.take(ij as int),
                plan@.len() == recs.len(),
                forall|k: int|
                    0 <= k < plan@.len() ==> entry_for(
                        #[trigger] plan@[k],
                        recs[k].0,
                        recs[k].1,
                        *fallback,
                        dest_index@,
                    ),
            decreases b.0.items@.len() - ij,
        {
            let item = &b.0.items[ij];
            proof {
                assert(item_ts_wf(batches@[bi as int].0.items@[ij as int]));
            }
            let e = plan_item(item, b.1.as_str(), fallback, dest_index);
            plan.push(e);
            proof {
                assert(lab[ij as int] == (b.0.items@[ij as int], b.1@));
                assert(lab.take(ij + 1) =~= lab.take(ij as int).push(lab[ij as int]));
                recs = recs.push(lab[ij as int]);
                assert(recs =~= recs0 + lab.take(ij + 1));
            }
            ij = ij + 1;
        }
        proof {
            assert(lab.take(b.0.items@.len() as int) =~= lab);
            assert(batches@.take(bi + 1).drop_last() =~= batches@.take(bi as int));
            assert(batches@.take(bi + 1).last() == batches@[bi as int]);
            assert(plan_records(batches@.take(bi + 1)) == plan_records(batches@.take(bi as int))
                + lab);
            assert(recs =~= plan_records(batches@.take(bi + 1)));
        }
        bi = bi + 1;
    }
    proof {
        assert(batches@.take(batches@.len() as int) =~= batches@);
    }
    plan
}

} // verus!
