//! The reconciliation of the document's lists with the live resources.
//!
//! Each list is recomputed in two steps. Pruning drops every entry whose ARN
//! no live resource has; both lists are pruned by the ARN of the entry, never
//! by its username. Upserting goes through the live resources in their
//! order and, for each one that belongs to the list, drops whatever the list
//! holds under its ARN and appends a fresh entry, so that the resource's
//! present state always wins.

use vstd::prelude::*;
use crate::arn::{kind_of, Principal};
use crate::model::{entries_of, snapshot_entries, DocumentEntry, Entry, IAMIdentityMappingSpec, MapRole, MapUser};

verus! {

/// Whether some live resource of the snapshot has this ARN.
pub open spec fn is_live(snapshot: Seq<Entry>, arn: Seq<char>) -> bool {
    exists|i: int| 0 <= i < snapshot.len() && (#[trigger] snapshot[i]).arn == arn
}

/// The entries whose ARN is live in `snapshot`.
pub open spec fn live_in(snapshot: Seq<Entry>) -> spec_fn(Entry) -> bool {
    |e: Entry| is_live(snapshot, e.arn)
}

/// The entries that are keyed by another ARN than `arn`.
pub open spec fn other_than(arn: Seq<char>) -> spec_fn(Entry) -> bool {
    |e: Entry| e.arn != arn
}

/// `entries` without those whose ARN is not live, order kept.
pub open spec fn prune(entries: Seq<Entry>, snapshot: Seq<Entry>) -> Seq<Entry> {
    entries.filter(live_in(snapshot))
}

/// `entries` without those keyed by `arn`, order kept.
pub open spec fn without(entries: Seq<Entry>, arn: Seq<char>) -> Seq<Entry> {
    entries.filter(other_than(arn))
}

/// `entries` with `fresh` as the one entry under its ARN, placed last.
pub open spec fn put(entries: Seq<Entry>, fresh: Entry) -> Seq<Entry> {
    without(entries, fresh.arn).push(fresh)
}

/// One live resource applied to the list of the given kind: put there when
/// the resource is of that kind, the list left alone when it is not.
pub open spec fn upsert(entries: Seq<Entry>, kind: Principal, live: Entry) -> Seq<Entry> {
    if kind_of(live.arn) == kind {
        put(entries, live)
    } else {
        entries
    }
}

/// All live resources applied to the list of the given kind, first to last.
pub open spec fn upsert_all(entries: Seq<Entry>, kind: Principal, snapshot: Seq<Entry>) -> Seq<Entry>
    decreases snapshot.len(),
{
    if snapshot.len() == 0 {
        entries
    } else {
        upsert(upsert_all(entries, kind, snapshot.drop_last()), kind, snapshot.last())
    }
}

/// The list of the given kind after one reconciliation.
pub open spec fn next_list(entries: Seq<Entry>, kind: Principal, snapshot: Seq<Entry>) -> Seq<Entry> {
    upsert_all(prune(entries, snapshot), kind, snapshot)
}

/// Whether a live resource of the snapshot has the ARN `arn`.
pub fn has_live_arn(snapshot: &Vec<IAMIdentityMappingSpec>, arn: &String) -> (live: bool)
    ensures
        live == is_live(snapshot_entries(snapshot@), arn@),
{
    let ghost entries = snapshot_entries(snapshot@);
    let mut i: usize = 0;
    while i < snapshot.len()
        invariant
            i <= snapshot.len(),
            entries == snapshot_entries(snapshot@),
            forall|k: int| 0 <= k < i ==> (#[trigger] entries[k]).arn != arn@,
        decreases snapshot.len() - i,
    {
        if snapshot[i].arn == *arn {
            assert(entries[i as int].arn == arn@);
            return true;
        }
        i += 1;
    }
    false
}

/// Drops every record whose ARN no live resource has. The records that stay
/// keep their order.
pub fn prune_records<T: DocumentEntry>(records: Vec<T>, snapshot: &Vec<IAMIdentityMappingSpec>) -> (kept: Vec<T>)
    ensures
        entries_of(kept@) == prune(entries_of(records@), snapshot_entries(snapshot@)),
{
    let ghost all = records@;
    let ghost live = snapshot_entries(snapshot@);
    let mut kept: Vec<T> = Vec::new();
    assert(entries_of(all.take(0)) =~= Seq::<Entry>::empty());
    assert(entries_of(kept@) =~= Seq::<Entry>::empty());
    for record in it: records.into_iter()
        invariant
            it.seq() == all,
            live == snapshot_entries(snapshot@),
            entries_of(kept@) == prune(entries_of(all.take(it.index() as int)), live),
    {
        let ghost before = entries_of(kept@);
        let ghost seen = entries_of(all.take(it.index() as int));
        proof {
            assert(entries_of(all.take(it.index() + 1)) =~= seen.push(record.entry()));
            seen.lemma_filter_push(record.entry(), live_in(live));
        }
        if has_live_arn(snapshot, record.principal_arn()) {
            kept.push(record);
            assert(entries_of(kept@) =~= before.push(record.entry()));
        }
    }
    assert(all.take(all.len() as int) =~= all);
    kept
}

/// Drops every record that is keyed by `arn`. The records that stay keep
/// their order.
pub fn remove_arn<T: DocumentEntry>(records: Vec<T>, arn: &String) -> (kept: Vec<T>)
    ensures
        entries_of(kept@) == without(entries_of(records@), arn@),
{
    let ghost all = records@;
    let mut kept: Vec<T> = Vec::new();
    assert(entries_of(all.take(0)) =~= Seq::<Entry>::empty());
    assert(entries_of(kept@) =~= Seq::<Entry>::empty());
    for record in it: records.into_iter()
        invariant
            it.seq() == all,
            entries_of(kept@) == without(entries_of(all.take(it.index() as int)), arn@),
    {
        let ghost before = entries_of(kept@);
        let ghost seen = entries_of(all.take(it.index() as int));
        proof {
            assert(entries_of(all.take(it.index() + 1)) =~= seen.push(record.entry()));
            seen.lemma_filter_push(record.entry(), other_than(arn@));
        }
        if *record.principal_arn() != *arn {
            kept.push(record);
            assert(entries_of(kept@) =~= before.push(record.entry()));
        }
    }
    assert(all.take(all.len() as int) =~= all);
    kept
}

/// Makes a fresh record of `mapping` the one record under its ARN: whatever
/// the list held under that ARN goes, and the fresh record is appended.
pub fn put_record<T: DocumentEntry>(records: Vec<T>, mapping: &IAMIdentityMappingSpec) -> (next: Vec<T>)
    ensures
        entries_of(next@) == put(entries_of(records@), mapping@),
{
    let mut next = remove_arn(records, &mapping.arn);
    let ghost kept = entries_of(next@);
    let fresh = T::describing(mapping);
    next.push(fresh);
    assert(entries_of(next@) =~= kept.push(mapping@));
    next
}

/// One reconciliation of both lists against the snapshot of live resources:
/// stale entries are pruned, and every live resource is upserted into the
/// list that the shape of its ARN assigns it to.
pub fn reconcile_lists(
    roles: Vec<MapRole>,
    users: Vec<MapUser>,
    snapshot: &Vec<IAMIdentityMappingSpec>,
) -> (next: (Vec<MapRole>, Vec<MapUser>))
    ensures
        entries_of(next.0@) == next_list(
            entries_of(roles@),
            Principal::Role,
            snapshot_entries(snapshot@),
        ),
        entries_of(next.1@) == next_list(
            entries_of(users@),
            Principal::User,
            snapshot_entries(snapshot@),
        ),
{
    let ghost live = snapshot_entries(snapshot@);
    let mut roles = prune_records(roles, snapshot);
    let mut users = prune_records(users, snapshot);
    let ghost pruned_roles = entries_of(roles@);
    let ghost pruned_users = entries_of(users@);
    assert(live.take(0) =~= Seq::<Entry>::empty());
    let mut i: usize = 0;
    while i < snapshot.len()
        invariant
            i <= snapshot.len(),
            live == snapshot_entries(snapshot@),
            entries_of(roles@) == upsert_all(pruned_roles, Principal::Role, live.take(i as int)),
            entries_of(users@) == upsert_all(pruned_users, Principal::User, live.take(i as int)),
        decreases snapshot.len() - i,
    {
        let mapping = &snapshot[i];
        proof {
            let upto = live.take(i + 1);
            assert(upto.drop_last() =~= live.take(i as int));
            assert(upto.last() == mapping@);
        }
        match mapping.principal() {
            Principal::Role => {
                roles = put_record(roles, mapping);
            },
            Principal::User => {
                users = put_record(users, mapping);
            },
        }
        i += 1;
    }
    assert(live.take(snapshot.len() as int) =~= live);
    (roles, users)
}

} // verus!
