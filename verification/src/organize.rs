//! Assembling track records into the library tree.

use vstd::prelude::*;
use crate::error::BuildError;
use crate::library::Library;
use crate::model::{AudioFileTrackMetadata, Slot, TrackView};

verus! {

/// The content of each record, in order.
pub open spec fn views(tracks: Seq<AudioFileTrackMetadata>) -> Seq<TrackView> {
    Seq::new(tracks.len(), |i: int| tracks[i]@)
}

/// No two of the records resolve to the same slot.
pub open spec fn distinct_slots(s: Seq<TrackView>) -> bool {
    forall|i: int, j: int| 0 <= i < j < s.len() ==> (#[trigger] s[i]).slot() != (#[trigger] s[j]).slot()
}

/// Some record resolves to `slot`.
pub open spec fn resolves_to(s: Seq<TrackView>, slot: Slot) -> bool {
    exists|i: int| 0 <= i < s.len() && (#[trigger] s[i]).slot() == slot
}

/// The index of a record that resolves to `slot`.
pub open spec fn record_at(s: Seq<TrackView>, slot: Slot) -> int {
    choose|i: int| 0 <= i < s.len() && (#[trigger] s[i]).slot() == slot
}

/// Every slot that a record resolves to, with that record.
pub open spec fn placed(s: Seq<TrackView>) -> Map<Slot, TrackView> {
    Map::new(|slot: Slot| resolves_to(s, slot), |slot: Slot| s[record_at(s, slot)])
}

/// The record at `j` is the first that resolves to a slot which an earlier
/// record holds, and the record at `i` is the one that holds it.
pub open spec fn first_conflict(s: Seq<TrackView>, i: int, j: int) -> bool {
    &&& 0 <= i < j < s.len()
    &&& s[i].slot() == s[j].slot()
    &&& distinct_slots(s.take(j))
}

/// Among records with distinct slots, each is the one placed at its slot.
pub proof fn lemma_placed_at(s: Seq<TrackView>, i: int)
    requires
        distinct_slots(s),
        0 <= i < s.len(),
    ensures
        placed(s).contains_key(s[i].slot()),
        placed(s)[s[i].slot()] == s[i],
{
    assert(resolves_to(s, s[i].slot()));
    let h = record_at(s, s[i].slot());
    assert(s[h].slot() == s[i].slot());
}

/// A record whose slot is free joins the placed records at that slot.
pub proof fn lemma_placed_push(s: Seq<TrackView>, t: TrackView)
    requires
        distinct_slots(s),
        !placed(s).contains_key(t.slot()),
    ensures
        distinct_slots(s.push(t)),
        placed(s.push(t)) == placed(s).insert(t.slot(), t),
{
    let grown = s.push(t);
    assert forall|i: int, j: int| 0 <= i < j < grown.len() implies (#[trigger] grown[i]).slot() != (
    #[trigger] grown[j]).slot() by {
        if j == s.len() {
            assert(grown[i] == s[i]);
            if s[i].slot() == t.slot() {
                assert(resolves_to(s, t.slot()));
            }
        } else {
            assert(grown[i] == s[i]);
            assert(grown[j] == s[j]);
        }
    }
    let goal = placed(s).insert(t.slot(), t);
    assert forall|slot: Slot| placed(grown).contains_key(slot) <==> goal.contains_key(slot) by {
        if placed(grown).contains_key(slot) {
            let h = record_at(grown, slot);
            assert(grown[h].slot() == slot);
            if h < s.len() {
                assert(s[h].slot() == slot);
            }
        }
        if goal.contains_key(slot) {
            if slot == t.slot() {
                assert(grown[s.len() as int].slot() == slot);
            } else {
                let h = record_at(s, slot);
                assert(s[h].slot() == slot);
                assert(grown[h].slot() == slot);
            }
        }
    }
    assert forall|slot: Slot| placed(grown).contains_key(slot) implies placed(grown)[slot]
        == goal[slot] by {
        if slot == t.slot() {
            assert(grown[s.len() as int].slot() == slot);
            lemma_placed_at(grown, s.len() as int);
        } else {
            let h = record_at(s, slot);
            assert(s[h].slot() == slot);
            assert(grown[h] == s[h]);
            lemma_placed_at(grown, h);
        }
    }
    assert(placed(grown) =~= goal);
}

/// Records with distinct slots fill as many slots as there are records.
pub proof fn lemma_placed_len(s: Seq<TrackView>)
    requires
        distinct_slots(s),
    ensures
        placed(s).dom().finite(),
        placed(s).dom().len() == s.len(),
    decreases s.len(),
{
    if s.len() == 0 {
        assert(placed(s).dom() =~= Set::<Slot>::empty());
    } else {
        let front = s.drop_last();
        let t = s.last();
        assert forall|i: int, j: int| 0 <= i < j < front.len() implies (#[trigger] front[i]).slot()
            != (#[trigger] front[j]).slot() by {
            assert(front[i] == s[i]);
            assert(front[j] == s[j]);
        }
        lemma_placed_len(front);
        if placed(front).contains_key(t.slot()) {
            let h = record_at(front, t.slot());
            assert(front[h] == s[h]);
            assert(s[h].slot() == s[s.len() - 1].slot());
        }
        lemma_placed_push(front, t);
        assert(front.push(t) =~= s);
        assert(placed(s).dom() =~= placed(front).dom().insert(t.slot()));
    }
}

/// What is placed does not depend on the order of the records: two
/// sequences of the same records, each with distinct slots, fill the same
/// slots with the same records.
pub proof fn lemma_placed_ignores_order(a: Seq<TrackView>, b: Seq<TrackView>)
    requires
        distinct_slots(a),
        distinct_slots(b),
        forall|i: int| 0 <= i < a.len() ==> b.contains(#[trigger] a[i]),
        forall|j: int| 0 <= j < b.len() ==> a.contains(#[trigger] b[j]),
    ensures
        placed(a) == placed(b),
{
    assert forall|slot: Slot| placed(a).contains_key(slot) <==> placed(b).contains_key(slot) by {
        if placed(a).contains_key(slot) {
            let i = record_at(a, slot);
            assert(b.contains(a[i]));
            let j = choose|j: int| 0 <= j < b.len() && b[j] == a[i];
            assert(b[j].slot() == slot);
        }
        if placed(b).contains_key(slot) {
            let j = record_at(b, slot);
            assert(a.contains(b[j]));
            let i = choose|i: int| 0 <= i < a.len() && a[i] == b[j];
            assert(a[i].slot() == slot);
        }
    }
    assert forall|slot: Slot| placed(a).contains_key(slot) implies placed(a)[slot] == placed(
        b,
    )[slot] by {
        let i = record_at(a, slot);
        assert(b.contains(a[i]));
        let j = choose|j: int| 0 <= j < b.len() && b[j] == a[i];
        lemma_placed_at(a, i);
        lemma_placed_at(b, j);
    }
    assert(placed(a) =~= placed(b));
}

/// At most one pair of records is the first conflict.
pub proof fn lemma_first_conflict_unique(s: Seq<TrackView>, i: int, j: int, k: int, l: int)
    requires
        first_conflict(s, i, j),
        first_conflict(s, k, l),
    ensures
        i == k,
        j == l,
{
    if j < l {
        assert(s.take(l)[i] == s[i]);
        assert(s.take(l)[j] == s[j]);
    } else if l < j {
        assert(s.take(j)[k] == s[k]);
        assert(s.take(j)[l] == s[l]);
    } else if i < k {
        assert(s.take(j)[i] == s[i]);
        assert(s.take(j)[k] == s[k]);
    } else if k < i {
        assert(s.take(j)[i] == s[i]);
        assert(s.take(j)[k] == s[k]);
    }
}

/// Records have a first conflict exactly when two of them resolve to the
/// same slot: so a build fails on a conflict exactly then, and succeeds
/// exactly when the slots are pairwise distinct.
pub proof fn lemma_conflict_iff_shared_slot(s: Seq<TrackView>)
    ensures
        (exists|i: int, j: int| first_conflict(s, i, j)) <==> !distinct_slots(s),
{
    if exists|i: int, j: int| first_conflict(s, i, j) {
        let (i, j) = choose|i: int, j: int| first_conflict(s, i, j);
        assert(s[i].slot() == s[j].slot());
    }
    if !distinct_slots(s) {
        assert(s.take(s.len() as int) =~= s);
        lemma_conflict_within(s, s.len() as int);
    }
}

/// Where two of the first `n` records share a slot, the records have a
/// first conflict.
proof fn lemma_conflict_within(s: Seq<TrackView>, n: int)
    requires
        0 <= n <= s.len(),
        !distinct_slots(s.take(n)),
    ensures
        exists|i: int, j: int| first_conflict(s, i, j),
    decreases n,
{
    let front = s.take(n);
    let (a, b) = choose|a: int, b: int|
        0 <= a < b < front.len() && (#[trigger] front[a]).slot() == (#[trigger] front[b]).slot();
    assert(front[a] == s[a]);
    assert(front[b] == s[b]);
    if distinct_slots(s.take(n - 1)) {
        if b < n - 1 {
            assert(s.take(n - 1)[a] == s[a]);
            assert(s.take(n - 1)[b] == s[b]);
        }
        assert(first_conflict(s, a, n - 1));
    } else {
        lemma_conflict_within(s, n - 1);
    }
}

/// Builds the library from `tracks`, taken in order: each track goes to the
/// slot that it resolves to. The build succeeds exactly when no two tracks
/// resolve to the same slot, and the library then holds every track at its
/// slot and nothing else. Otherwise it fails at the first track whose slot
/// is taken, and the error names that slot and the title of the track that
/// took it.
pub fn organize_tracks(tracks: Vec<AudioFileTrackMetadata>) -> (built: Result<Library, BuildError>)
    ensures
        built is Ok <==> distinct_slots(views(tracks@)),
        match built {
            Ok(library) => {
                &&& library.wf()
                &&& library@ == placed(views(tracks@))
                &&& library@.dom().finite()
                &&& library@.len() == tracks@.len()
            },
            Err(e) => exists|i: int, j: int|
                #![trigger first_conflict(views(tracks@), i, j)]
                first_conflict(views(tracks@), i, j) && e.is_conflict(
                    views(tracks@)[j].slot(),
                    views(tracks@)[i].track_title,
                ),
        },
{
    let ghost all = views(tracks@);
    let mut library = Library::new();
    proof {
        assert(placed(all.take(0)) =~= Map::<Slot, TrackView>::empty());
    }
    for track in it: tracks
        invariant
            it.seq() == tracks@,
            all == views(tracks@),
            library.wf(),
            distinct_slots(all.take(it.index())),
            library@ == placed(all.take(it.index())),
    {
        let ghost n = it.index();
        let ghost done = all.take(n);
        assert(track@ == all[n]);
        assert(all.take(n + 1) =~= done.push(track@));
        match library.insert(track) {
            Ok(_) => {
                proof {
                    lemma_placed_push(done, track@);
                }
            },
            Err(e) => {
                proof {
                    let i = record_at(done, track@.slot());
                    assert(done[i].slot() == track@.slot());
                    lemma_placed_at(done, i);
                    assert(done[i] == all[i]);
                    assert(first_conflict(all, i, n));
                    lemma_conflict_iff_shared_slot(all);
                }
                return Err(e);
            },
        }
    }
    proof {
        assert(all.take(all.len() as int) =~= all);
        lemma_placed_len(all);
    }
    Ok(library)
}

} // verus!
