//! Reconciliation of a discovery feed against a dataset: which entries are
//! still to be read, and how what was read joins the dataset.

use crate::chars::{chars_of, eq_ignore_ascii_case, eq_ignore_case};
use crate::record::{Acs, AcsView, BacklinksInfo, BacklinksInfoView};
use crate::sort_json::{all_have_field, sort, sorted_by, SortableField};
use vstd::prelude::*;

verus! {

/// The record stands for the entry: it is no fragment, and it has the
/// entry's identifier or its name, up to the case of ASCII letters. A
/// fragment stands for no entry, whatever it holds.
pub open spec fn covers(record: AcsView, entry: BacklinksInfoView) -> bool {
    &&& !record.fragment
    &&& (eq_ignore_case(record.actual_number, entry.actual_number) || eq_ignore_case(
        record.name,
        entry.name,
    ))
}

/// Some record of the dataset stands for the entry.
pub open spec fn is_known(db: Seq<Acs>, entry: BacklinksInfo) -> bool {
    exists|i: int| 0 <= i < db.len() && covers((#[trigger] db[i])@, entry@)
}

/// The entries of `feed` for which no record of `db` stands, in their order.
pub open spec fn pending_of(db: Seq<Acs>, feed: Seq<BacklinksInfo>) -> Seq<BacklinksInfo>
    decreases feed.len(),
{
    if feed.len() == 0 {
        Seq::empty()
    } else {
        let rest = pending_of(db, feed.drop_last());
        if is_known(db, feed.last()) {
            rest
        } else {
            rest.push(feed.last())
        }
    }
}

/// Whether the record stands for the entry.
pub fn record_covers(record: &Acs, entry: &BacklinksInfo) -> (r: bool)
    ensures
        r == covers(record@, entry@),
{
    if record.fragment {
        return false;
    }
    let number = chars_of(record.actual_number.as_str());
    let wanted = chars_of(entry.actual_number.as_str());
    if eq_ignore_ascii_case(&number, &wanted) {
        return true;
    }
    let name = chars_of(record.name.as_str());
    let other = chars_of(entry.name.as_str());
    eq_ignore_ascii_case(&name, &other)
}

/// Whether some record of the dataset stands for the entry.
pub fn is_known_entry(db: &[Acs], entry: &BacklinksInfo) -> (r: bool)
    ensures
        r == is_known(db@, *entry),
{
    let mut i: usize = 0;
    while i < db.len()
        invariant
            i <= db.len(),
            forall|k: int| 0 <= k < i ==> !covers((#[trigger] db@[k])@, entry@),
        decreases db.len() - i,
    {
        if record_covers(&db[i], entry) {
            return true;
        }
        i += 1;
    }
    false
}

/// Picks from the feed the entries that the dataset does not know yet.
pub fn cross_compare(db: &[Acs], feed: &[BacklinksInfo]) -> (pending: Vec<BacklinksInfo>)
    ensures
        pending@ == pending_of(db@, feed@),
{
    let mut pending: Vec<BacklinksInfo> = Vec::new();
    let mut i: usize = 0;
    assert(feed@.take(0) =~= Seq::empty());
    while i < feed.len()
        invariant
            i <= feed.len(),
            pending@ == pending_of(db@, feed@.take(i as int)),
        decreases feed.len() - i,
    {
        let entry = &feed[i];
        assert(feed@.take(i + 1).drop_last() == feed@.take(i as int));
        assert(feed@.take(i + 1).last() == feed@[i as int]);
        if !is_known_entry(db, entry) {
            pending.push(
                BacklinksInfo {
                    fragment: entry.fragment,
                    name: entry.name.clone(),
                    actual_number: entry.actual_number.clone(),
                    url: entry.url.clone(),
                },
            );
        }
        i += 1;
    }
    assert(feed@.take(feed@.len() as int) == feed@);
    pending
}

/// An entry for which only fragments could stand, or no record at all, is
/// pending: a dataset of fragments filters nothing out.
pub proof fn lemma_fragments_cover_nothing(db: Seq<Acs>, feed: Seq<BacklinksInfo>)
    requires
        forall|i: int| 0 <= i < db.len() ==> (#[trigger] db[i]).fragment,
    ensures
        pending_of(db, feed) == feed,
    decreases feed.len(),
{
    if feed.len() > 0 {
        lemma_fragments_cover_nothing(db, feed.drop_last());
        assert(!is_known(db, feed.last()));
        assert(feed.drop_last().push(feed.last()) == feed);
    }
}

/// Every pending entry comes from the feed and is unknown to the dataset.
pub proof fn lemma_pending(db: Seq<Acs>, feed: Seq<BacklinksInfo>)
    ensures
        forall|k: int|
            0 <= k < pending_of(db, feed).len() ==> !is_known(
                db,
                #[trigger] pending_of(db, feed)[k],
            ) && feed.contains(pending_of(db, feed)[k]),
    decreases feed.len(),
{
    if feed.len() > 0 {
        let front = feed.drop_last();
        lemma_pending(db, front);
        let rest = pending_of(db, front);
        assert forall|k: int| 0 <= k < pending_of(db, feed).len() implies !is_known(
            db,
            #[trigger] pending_of(db, feed)[k],
        ) && feed.contains(pending_of(db, feed)[k]) by {
            if k < rest.len() {
                let e = rest[k];
                assert(pending_of(db, feed)[k] == e);
                let j = choose|j: int| 0 <= j < front.len() && front[j] == e;
                assert(feed[j] == e);
            } else {
                assert(pending_of(db, feed)[k] == feed.last());
                assert(feed[feed.len() - 1] == feed.last());
            }
        }
    }
}

/// No entry is read again whose identifier the dataset already holds in a
/// record that is not a fragment.
pub proof fn lemma_never_readds(db: Seq<Acs>, feed: Seq<BacklinksInfo>)
    ensures
        forall|k: int, i: int|
            0 <= k < pending_of(db, feed).len() && 0 <= i < db.len() && !db[i].fragment
                ==> !eq_ignore_case(
                (#[trigger] db[i]).actual_number@,
                (#[trigger] pending_of(db, feed)[k]).actual_number@,
            ),
{
    lemma_pending(db, feed);
    assert forall|k: int, i: int|
        0 <= k < pending_of(db, feed).len() && 0 <= i < db.len()
            && !db[i].fragment implies !eq_ignore_case(
        (#[trigger] db[i]).actual_number@,
        (#[trigger] pending_of(db, feed)[k]).actual_number@,
    ) by {
        let e = pending_of(db, feed)[k];
        assert(!is_known(db, e));
        if eq_ignore_case(db[i].actual_number@, e.actual_number@) {
            assert(covers(db[i]@, e@));
        }
    }
}

/// Adds the records `fresh` to the dataset and sorts it by identifier. No
/// record of the dataset is changed or lost.
pub fn update(db: &mut Vec<Acs>, fresh: Vec<Acs>)
    ensures
        sorted_by(old(db)@ + fresh@, final(db)@, "actual_number"@),
{
    let mut fresh = fresh;
    db.append(&mut fresh);
    assert(all_have_field(db@, "actual_number"@)) by {
        assert forall|i: int| 0 <= i < db@.len() implies (#[trigger] db@[i]).has_field(
            "actual_number"@,
        ) by {
            assert(db@[i]@.field("actual_number"@) is Some);
        }
    }
    sort(db.as_mut_slice(), "actual_number");
}

} // verus!
