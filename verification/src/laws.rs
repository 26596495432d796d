//! What holds of every reconciliation, proved over the model of
//! [`crate::merge`].

use vstd::prelude::*;
use crate::arn::{kind_of, Principal};
use crate::merge::{is_live, live_in, next_list, other_than, prune, upsert_all, without};
use crate::model::Entry;
use crate::seq_facts::{
    lemma_filter_agree,
    lemma_filter_all,
    lemma_filter_members,
    lemma_filter_none,
    lemma_filter_twice,
};

verus! {

/// The entries that reconciliation writes from the live resources alone: the
/// list of the given kind when it starts out empty.
pub open spec fn fresh_entries(kind: Principal, snapshot: Seq<Entry>) -> Seq<Entry> {
    upsert_all(Seq::<Entry>::empty(), kind, snapshot)
}

/// Whether a live resource of the given kind has this ARN, so that upserting
/// rewrites whatever the list of that kind holds under it.
pub open spec fn rewritten(kind: Principal, snapshot: Seq<Entry>, arn: Seq<char>) -> bool {
    is_live(snapshot, arn) && kind_of(arn) == kind
}

/// The entries that upserting leaves as they are.
pub open spec fn untouched_by(kind: Principal, snapshot: Seq<Entry>) -> spec_fn(Entry) -> bool {
    |e: Entry| !rewritten(kind, snapshot, e.arn)
}

/// The entries that survive a whole reconciliation as they are: their ARN is
/// live, but it is of the other kind than the list that holds them.
pub open spec fn carried_over(kind: Principal, snapshot: Seq<Entry>) -> spec_fn(Entry) -> bool {
    |e: Entry| is_live(snapshot, e.arn) && kind_of(e.arn) != kind
}

/// Whether no two entries share an ARN.
pub open spec fn distinct_arns(entries: Seq<Entry>) -> bool {
    forall|i: int, j: int|
        0 <= i < j < entries.len() ==> (#[trigger] entries[i]).arn != (#[trigger] entries[j]).arn
}

/// Whether some entry is keyed by `arn`.
pub open spec fn has_arn(entries: Seq<Entry>, arn: Seq<char>) -> bool {
    exists|i: int| 0 <= i < entries.len() && (#[trigger] entries[i]).arn == arn
}

/// Whether position `at` holds the last live resource with its ARN.
pub open spec fn is_last_with_arn(snapshot: Seq<Entry>, at: int) -> bool {
    &&& 0 <= at < snapshot.len()
    &&& forall|later: int|
        at < later < snapshot.len() ==> (#[trigger] snapshot[later]).arn != snapshot[at].arn
}

/// Whether resources with the same ARN state the same thing. It holds of
/// every snapshot in which an ARN occurs once.
pub open spec fn agrees_by_arn(snapshot: Seq<Entry>) -> bool {
    forall|i: int, j: int|
        0 <= i < snapshot.len() && 0 <= j < snapshot.len() && (#[trigger] snapshot[i]).arn == (
        #[trigger] snapshot[j]).arn ==> snapshot[i] == snapshot[j]
}

/// One more live resource makes live what was live and its own ARN.
proof fn lemma_live_push(snapshot: Seq<Entry>, live: Entry, arn: Seq<char>)
    ensures
        is_live(snapshot.push(live), arn) <==> is_live(snapshot, arn) || live.arn == arn,
{
    let longer = snapshot.push(live);
    if is_live(snapshot, arn) {
        let i = choose|i: int| 0 <= i < snapshot.len() && (#[trigger] snapshot[i]).arn == arn;
        assert(longer[i].arn == arn);
    }
    if live.arn == arn {
        assert(longer[snapshot.len() as int].arn == arn);
    }
    if is_live(longer, arn) {
        let i = choose|i: int| 0 <= i < longer.len() && (#[trigger] longer[i]).arn == arn;
        if i < snapshot.len() {
            assert(snapshot[i].arn == arn);
        }
    }
}

/// Upserting all live resources keeps the untouched entries in their order
/// and appends the fresh entries.
pub proof fn lemma_upsert_all_shape(entries: Seq<Entry>, kind: Principal, snapshot: Seq<Entry>)
    ensures
        upsert_all(entries, kind, snapshot) == entries.filter(untouched_by(kind, snapshot))
            + fresh_entries(kind, snapshot),
    decreases snapshot.len(),
{
    let none = Seq::<Entry>::empty();
    if snapshot.len() == 0 {
        assert forall|i: int| 0 <= i < entries.len() implies untouched_by(kind, snapshot)(
            #[trigger] entries[i],
        ) by {}
        lemma_filter_all(entries, untouched_by(kind, snapshot));
        assert(entries + none =~= entries);
    } else {
        let init = snapshot.drop_last();
        let live = snapshot.last();
        assert(snapshot =~= init.push(live));
        lemma_upsert_all_shape(entries, kind, init);
        let kept = entries.filter(untouched_by(kind, init));
        let fresh = fresh_entries(kind, init);
        assert forall|i: int| 0 <= i < entries.len() implies untouched_by(kind, snapshot)(
            #[trigger] entries[i],
        ) == (untouched_by(kind, init)(entries[i]) && (kind_of(live.arn) == kind ==> other_than(
            live.arn,
        )(entries[i]))) by {
            lemma_live_push(init, live, entries[i].arn);
        }
        if kind_of(live.arn) == kind {
            lemma_filter_twice(
                entries,
                untouched_by(kind, init),
                other_than(live.arn),
                untouched_by(kind, snapshot),
            );
            Seq::filter_distributes_over_add(kept, fresh, other_than(live.arn));
            assert((kept.filter(other_than(live.arn)) + fresh.filter(other_than(live.arn))).push(
                live,
            ) =~= kept.filter(other_than(live.arn)) + fresh.filter(other_than(live.arn)).push(
                live,
            ));
        } else {
            lemma_filter_agree(entries, untouched_by(kind, snapshot), untouched_by(kind, init));
        }
    }
}

/// Every fresh entry states a live resource of the list's kind.
pub proof fn lemma_fresh_from_snapshot(kind: Principal, snapshot: Seq<Entry>)
    ensures
        forall|e: Entry| #[trigger]
            fresh_entries(kind, snapshot).contains(e) ==> snapshot.contains(e) && kind_of(e.arn)
                == kind,
    decreases snapshot.len(),
{
    let none = Seq::<Entry>::empty();
    if snapshot.len() == 0 {
        assert forall|e: Entry| #[trigger]
            fresh_entries(kind, snapshot).contains(e) implies snapshot.contains(e) && kind_of(e.arn)
            == kind by {
            assert(!none.contains(e));
        }
    } else {
        let init = snapshot.drop_last();
        let live = snapshot.last();
        assert(snapshot =~= init.push(live));
        lemma_fresh_from_snapshot(kind, init);
        let before = fresh_entries(kind, init);
        let after = fresh_entries(kind, snapshot);
        lemma_filter_members(before, other_than(live.arn));
        assert forall|e: Entry| #[trigger] after.contains(e) implies snapshot.contains(e)
            && kind_of(e.arn) == kind by {
            let i = choose|i: int| 0 <= i < after.len() && after[i] == e;
            if kind_of(live.arn) == kind && i == after.len() - 1 {
                assert(snapshot[snapshot.len() - 1] == e);
            } else {
                if kind_of(live.arn) == kind {
                    assert(without(before, live.arn)[i] == e);
                    assert(without(before, live.arn).contains(e));
                }
                assert(before.contains(e));
                let j = choose|j: int| 0 <= j < init.len() && init[j] == e;
                assert(snapshot[j] == e);
            }
        }
    }
}

/// One reconciliation keeps the entries that are carried over, in their
/// order, and appends the fresh entries. Nothing else of the old list counts.
pub proof fn lemma_next_list_shape(entries: Seq<Entry>, kind: Principal, snapshot: Seq<Entry>)
    ensures
        next_list(entries, kind, snapshot) == entries.filter(carried_over(kind, snapshot))
            + fresh_entries(kind, snapshot),
{
    lemma_upsert_all_shape(prune(entries, snapshot), kind, snapshot);
    assert forall|i: int| 0 <= i < entries.len() implies carried_over(kind, snapshot)(
        #[trigger] entries[i],
    ) == (live_in(snapshot)(entries[i]) && untouched_by(kind, snapshot)(entries[i])) by {}
    lemma_filter_twice(
        entries,
        live_in(snapshot),
        untouched_by(kind, snapshot),
        carried_over(kind, snapshot),
    );
}

/// Bootstrap: reconciling an empty list writes the fresh entries and nothing
/// else.
pub proof fn lemma_bootstrap(kind: Principal, snapshot: Seq<Entry>)
    ensures
        next_list(Seq::<Entry>::empty(), kind, snapshot) == fresh_entries(kind, snapshot),
{
    let none = Seq::<Entry>::empty();
    lemma_filter_none(none, live_in(snapshot));
}

/// Pruning: after a reconciliation every entry is keyed by the ARN of a live
/// resource, so an entry whose ARN no live resource has is gone, and nothing
/// stands under its ARN.
pub proof fn lemma_stale_entries_pruned(entries: Seq<Entry>, kind: Principal, snapshot: Seq<Entry>)
    ensures
        forall|i: int|
            0 <= i < next_list(entries, kind, snapshot).len() ==> is_live(
                snapshot,
                (#[trigger] next_list(entries, kind, snapshot)[i]).arn,
            ),
        forall|arn: Seq<char>|
            !is_live(snapshot, arn) ==> !#[trigger] has_arn(next_list(entries, kind, snapshot), arn),
        forall|e: Entry|
            !is_live(snapshot, e.arn) ==> !#[trigger] next_list(entries, kind, snapshot).contains(e),
{
    let next = next_list(entries, kind, snapshot);
    let carried = entries.filter(carried_over(kind, snapshot));
    let fresh = fresh_entries(kind, snapshot);
    lemma_next_list_shape(entries, kind, snapshot);
    lemma_fresh_from_snapshot(kind, snapshot);
    assert forall|i: int| 0 <= i < next.len() implies is_live(snapshot, (#[trigger] next[i]).arn) by {
        if i < carried.len() {
            entries.lemma_filter_pred(carried_over(kind, snapshot), i);
        } else {
            let e = fresh[i - carried.len()];
            assert(fresh.contains(e));
            let j = choose|j: int| 0 <= j < snapshot.len() && snapshot[j] == e;
            assert(snapshot[j].arn == e.arn);
        }
    }
    assert forall|arn: Seq<char>| !is_live(snapshot, arn) implies !#[trigger] has_arn(next, arn) by {
        if has_arn(next, arn) {
            let i = choose|i: int| 0 <= i < next.len() && (#[trigger] next[i]).arn == arn;
            assert(is_live(snapshot, next[i].arn));
        }
    }
    assert forall|e: Entry| !is_live(snapshot, e.arn) implies !#[trigger] next.contains(e) by {
        if next.contains(e) {
            let i = choose|i: int| 0 <= i < next.len() && next[i] == e;
            assert(is_live(snapshot, next[i].arn));
        }
    }
}

/// Idempotence: reconciling the outcome of a reconciliation once more against
/// the same live resources changes nothing, neither the entries nor their
/// order.
pub proof fn lemma_idempotent(entries: Seq<Entry>, kind: Principal, snapshot: Seq<Entry>)
    ensures
        next_list(next_list(entries, kind, snapshot), kind, snapshot) == next_list(
            entries,
            kind,
            snapshot,
        ),
{
    let once = next_list(entries, kind, snapshot);
    let carried = entries.filter(carried_over(kind, snapshot));
    let fresh = fresh_entries(kind, snapshot);
    let none = Seq::<Entry>::empty();
    lemma_next_list_shape(entries, kind, snapshot);
    lemma_next_list_shape(once, kind, snapshot);
    Seq::filter_distributes_over_add(carried, fresh, carried_over(kind, snapshot));
    assert forall|i: int| 0 <= i < carried.len() implies carried_over(kind, snapshot)(
        #[trigger] carried[i],
    ) by {
        entries.lemma_filter_pred(carried_over(kind, snapshot), i);
    }
    lemma_filter_all(carried, carried_over(kind, snapshot));
    lemma_fresh_from_snapshot(kind, snapshot);
    assert forall|i: int| 0 <= i < fresh.len() implies !carried_over(kind, snapshot)(
        #[trigger] fresh[i],
    ) by {
        assert(fresh.contains(fresh[i]));
    }
    lemma_filter_none(fresh, carried_over(kind, snapshot));
    assert(carried + none =~= carried);
}

/// Filtering cannot make two entries share an ARN.
proof fn lemma_filter_keeps_distinct(entries: Seq<Entry>, p: spec_fn(Entry) -> bool)
    requires
        distinct_arns(entries),
    ensures
        distinct_arns(entries.filter(p)),
    decreases entries.len(),
{
    if entries.len() == 0 {
        reveal(Seq::filter);
    } else {
        let init = entries.drop_last();
        let last = entries.last();
        assert(entries =~= init.push(last));
        assert forall|i: int, j: int| 0 <= i < j < init.len() implies (#[trigger] init[i]).arn != (
        #[trigger] init[j]).arn by {
            assert(entries[i].arn != entries[j].arn);
        }
        lemma_filter_keeps_distinct(init, p);
        init.lemma_filter_push(last, p);
        lemma_filter_members(init, p);
        let kept = init.filter(p);
        let all = entries.filter(p);
        assert forall|i: int, j: int| 0 <= i < j < all.len() implies (#[trigger] all[i]).arn != (
        #[trigger] all[j]).arn by {
            if j == kept.len() {
                assert(kept[i] == all[i]);
                assert(kept.contains(all[i]));
                let k = choose|k: int| 0 <= k < init.len() && init[k] == all[i];
                assert(entries[k].arn != entries[entries.len() - 1].arn);
            } else {
                assert(kept[i].arn != kept[j].arn);
            }
        }
    }
}

/// No two fresh entries share an ARN.
pub proof fn lemma_fresh_distinct(kind: Principal, snapshot: Seq<Entry>)
    ensures
        distinct_arns(fresh_entries(kind, snapshot)),
    decreases snapshot.len(),
{
    if snapshot.len() > 0 {
        let init = snapshot.drop_last();
        let live = snapshot.last();
        assert(snapshot =~= init.push(live));
        lemma_fresh_distinct(kind, init);
        let before = fresh_entries(kind, init);
        let after = fresh_entries(kind, snapshot);
        if kind_of(live.arn) == kind {
            let kept = without(before, live.arn);
            lemma_filter_keeps_distinct(before, other_than(live.arn));
            assert forall|i: int, j: int| 0 <= i < j < after.len() implies (#[trigger] after[i]).arn
                != (#[trigger] after[j]).arn by {
                if j == kept.len() {
                    before.lemma_filter_pred(other_than(live.arn), i);
                } else {
                    assert(kept[i].arn != kept[j].arn);
                }
            }
        }
    }
}

/// The last live resource with a given ARN has its entry among the fresh
/// entries of its kind.
pub proof fn lemma_fresh_holds_last(kind: Principal, snapshot: Seq<Entry>, at: int)
    requires
        is_last_with_arn(snapshot, at),
        kind_of(snapshot[at].arn) == kind,
    ensures
        fresh_entries(kind, snapshot).contains(snapshot[at]),
    decreases snapshot.len(),
{
    let init = snapshot.drop_last();
    let live = snapshot.last();
    assert(snapshot =~= init.push(live));
    let before = fresh_entries(kind, init);
    let after = fresh_entries(kind, snapshot);
    if at == snapshot.len() - 1 {
        assert(after[after.len() - 1] == snapshot[at]);
    } else {
        assert(init[at] == snapshot[at]);
        assert forall|later: int| at < later < init.len() implies (#[trigger] init[later]).arn
            != init[at].arn by {
            assert(snapshot[later].arn != snapshot[at].arn);
        }
        lemma_fresh_holds_last(kind, init, at);
        if kind_of(live.arn) == kind {
            assert(snapshot[snapshot.len() - 1].arn != snapshot[at].arn);
            lemma_filter_members(before, other_than(live.arn));
            let kept = without(before, live.arn);
            assert(kept.contains(snapshot[at]));
            let i = choose|i: int| 0 <= i < kept.len() && kept[i] == snapshot[at];
            assert(after[i] == snapshot[at]);
        }
    }
}

/// Every live ARN has a last live resource that carries it.
pub proof fn lemma_last_with_arn(snapshot: Seq<Entry>, arn: Seq<char>) -> (at: int)
    requires
        is_live(snapshot, arn),
    ensures
        is_last_with_arn(snapshot, at),
        snapshot[at].arn == arn,
    decreases snapshot.len(),
{
    let some = choose|i: int| 0 <= i < snapshot.len() && (#[trigger] snapshot[i]).arn == arn;
    let end = snapshot.len() - 1;
    if snapshot[end].arn == arn {
        end
    } else {
        let init = snapshot.drop_last();
        assert(init[some].arn == arn);
        let at = lemma_last_with_arn(init, arn);
        assert forall|later: int| at < later < snapshot.len() implies (
        #[trigger] snapshot[later]).arn != snapshot[at].arn by {
            if later < end {
                assert(init[later].arn != init[at].arn);
            }
        }
        at
    }
}

/// Upsert precedence: whatever the list held under the ARN of a live resource
/// of its kind, afterwards it holds exactly one entry under that ARN, and the
/// entry states what the resource declares. Of several live resources with
/// one ARN the last one counts.
pub proof fn lemma_upsert_precedence(
    entries: Seq<Entry>,
    kind: Principal,
    snapshot: Seq<Entry>,
    at: int,
) -> (place: int)
    requires
        is_last_with_arn(snapshot, at),
        kind_of(snapshot[at].arn) == kind,
    ensures
        0 <= place < next_list(entries, kind, snapshot).len(),
        next_list(entries, kind, snapshot)[place] == snapshot[at],
        forall|i: int|
            0 <= i < next_list(entries, kind, snapshot).len() && (#[trigger] next_list(
                entries,
                kind,
                snapshot,
            )[i]).arn == snapshot[at].arn ==> i == place,
{
    let next = next_list(entries, kind, snapshot);
    let carried = entries.filter(carried_over(kind, snapshot));
    let fresh = fresh_entries(kind, snapshot);
    lemma_next_list_shape(entries, kind, snapshot);
    lemma_fresh_holds_last(kind, snapshot, at);
    lemma_fresh_distinct(kind, snapshot);
    let within = choose|i: int| 0 <= i < fresh.len() && fresh[i] == snapshot[at];
    let place = carried.len() + within;
    assert forall|i: int| 0 <= i < next.len() && (#[trigger] next[i]).arn
        == snapshot[at].arn implies i == place by {
        if i < carried.len() {
            entries.lemma_filter_pred(carried_over(kind, snapshot), i);
        } else {
            let other = i - carried.len();
            if other < within {
                assert(fresh[other].arn != fresh[within].arn);
            } else if within < other {
                assert(fresh[within].arn != fresh[other].arn);
            }
        }
    }
    place
}

/// Classification, first half: every live resource has an entry in the list
/// of its own kind, the role list when its ARN holds `:role/` and the user
/// list when it does not.
pub proof fn lemma_lands_in_own_list(entries: Seq<Entry>, snapshot: Seq<Entry>, at: int)
    requires
        0 <= at < snapshot.len(),
    ensures
        has_arn(next_list(entries, kind_of(snapshot[at].arn), snapshot), snapshot[at].arn),
{
    let arn = snapshot[at].arn;
    let last = lemma_last_with_arn(snapshot, arn);
    let place = lemma_upsert_precedence(entries, kind_of(arn), snapshot, last);
    assert(next_list(entries, kind_of(arn), snapshot)[place].arn == arn);
}

/// Classification, second half: reconciliation never files an ARN under the
/// other kind. A list holds an ARN of the other kind afterwards only if it
/// held that ARN before.
pub proof fn lemma_stays_out_of_other_list(
    entries: Seq<Entry>,
    kind: Principal,
    snapshot: Seq<Entry>,
    arn: Seq<char>,
)
    requires
        kind_of(arn) != kind,
        !has_arn(entries, arn),
    ensures
        !has_arn(next_list(entries, kind, snapshot), arn),
{
    let next = next_list(entries, kind, snapshot);
    let carried = entries.filter(carried_over(kind, snapshot));
    let fresh = fresh_entries(kind, snapshot);
    lemma_next_list_shape(entries, kind, snapshot);
    lemma_fresh_from_snapshot(kind, snapshot);
    lemma_filter_members(entries, carried_over(kind, snapshot));
    if has_arn(next, arn) {
        let i = choose|i: int| 0 <= i < next.len() && (#[trigger] next[i]).arn == arn;
        if i < carried.len() {
            assert(carried.contains(carried[i]));
            let j = choose|j: int| 0 <= j < entries.len() && entries[j] == carried[i];
            assert(entries[j].arn == arn);
        } else {
            assert(fresh.contains(fresh[i - carried.len()]));
        }
    }
}

/// Classification: a live resource whose ARN holds `:role/` lands in the role
/// list, any other in the user list, and never in both, as long as the other
/// list did not hold its ARN to begin with.
pub proof fn lemma_classification(
    roles: Seq<Entry>,
    users: Seq<Entry>,
    snapshot: Seq<Entry>,
    at: int,
)
    requires
        0 <= at < snapshot.len(),
        kind_of(snapshot[at].arn) == Principal::Role ==> !has_arn(users, snapshot[at].arn),
        kind_of(snapshot[at].arn) == Principal::User ==> !has_arn(roles, snapshot[at].arn),
    ensures
        kind_of(snapshot[at].arn) == Principal::Role ==> has_arn(
            next_list(roles, Principal::Role, snapshot),
            snapshot[at].arn,
        ) && !has_arn(next_list(users, Principal::User, snapshot), snapshot[at].arn),
        kind_of(snapshot[at].arn) == Principal::User ==> has_arn(
            next_list(users, Principal::User, snapshot),
            snapshot[at].arn,
        ) && !has_arn(next_list(roles, Principal::Role, snapshot), snapshot[at].arn),
{
    let arn = snapshot[at].arn;
    if kind_of(arn) == Principal::Role {
        lemma_lands_in_own_list(roles, snapshot, at);
        lemma_stays_out_of_other_list(users, Principal::User, snapshot, arn);
    } else {
        lemma_lands_in_own_list(users, snapshot, at);
        lemma_stays_out_of_other_list(roles, Principal::Role, snapshot, arn);
    }
}

/// A list in which no ARN occurs twice stays so.
pub proof fn lemma_distinct_preserved(entries: Seq<Entry>, kind: Principal, snapshot: Seq<Entry>)
    requires
        distinct_arns(entries),
    ensures
        distinct_arns(next_list(entries, kind, snapshot)),
{
    let next = next_list(entries, kind, snapshot);
    let carried = entries.filter(carried_over(kind, snapshot));
    let fresh = fresh_entries(kind, snapshot);
    lemma_next_list_shape(entries, kind, snapshot);
    lemma_filter_keeps_distinct(entries, carried_over(kind, snapshot));
    lemma_fresh_distinct(kind, snapshot);
    lemma_fresh_from_snapshot(kind, snapshot);
    assert forall|i: int, j: int| 0 <= i < j < next.len() implies (#[trigger] next[i]).arn != (
    #[trigger] next[j]).arn by {
        if j < carried.len() {
            assert(carried[i].arn != carried[j].arn);
        } else if i < carried.len() {
            entries.lemma_filter_pred(carried_over(kind, snapshot), i);
            assert(fresh.contains(fresh[j - carried.len()]));
        } else {
            assert(fresh[i - carried.len()].arn != fresh[j - carried.len()].arn);
        }
    }
}

/// Whether every entry is keyed by an ARN of the given kind.
pub open spec fn well_filed(entries: Seq<Entry>, kind: Principal) -> bool {
    forall|i: int| 0 <= i < entries.len() ==> kind_of((#[trigger] entries[i]).arn) == kind
}

/// Full regeneration: a list that holds no ARN of the other kind is
/// recomputed from the live resources alone. What it held before does not
/// show in the outcome, which is well filed again and holds no ARN twice.
pub proof fn lemma_fully_recomputed(entries: Seq<Entry>, kind: Principal, snapshot: Seq<Entry>)
    requires
        well_filed(entries, kind),
    ensures
        next_list(entries, kind, snapshot) == fresh_entries(kind, snapshot),
        well_filed(next_list(entries, kind, snapshot), kind),
        distinct_arns(next_list(entries, kind, snapshot)),
{
    let fresh = fresh_entries(kind, snapshot);
    let none = Seq::<Entry>::empty();
    lemma_next_list_shape(entries, kind, snapshot);
    lemma_filter_none(entries, carried_over(kind, snapshot));
    assert(none + fresh =~= fresh);
    lemma_fresh_from_snapshot(kind, snapshot);
    assert forall|i: int| 0 <= i < fresh.len() implies kind_of((#[trigger] fresh[i]).arn)
        == kind by {
        assert(fresh.contains(fresh[i]));
    }
    lemma_fresh_distinct(kind, snapshot);
}

/// Two well-filed lists stay apart: after a reconciliation no ARN stands in
/// both the role list and the user list.
pub proof fn lemma_lists_stay_apart(roles: Seq<Entry>, users: Seq<Entry>, snapshot: Seq<Entry>)
    requires
        well_filed(roles, Principal::Role),
        well_filed(users, Principal::User),
    ensures
        forall|arn: Seq<char>|
            !(#[trigger] has_arn(next_list(roles, Principal::Role, snapshot), arn) && has_arn(
                next_list(users, Principal::User, snapshot),
                arn,
            )),
{
    let next_roles = next_list(roles, Principal::Role, snapshot);
    let next_users = next_list(users, Principal::User, snapshot);
    lemma_fully_recomputed(roles, Principal::Role, snapshot);
    lemma_fully_recomputed(users, Principal::User, snapshot);
    assert forall|arn: Seq<char>|
        !(#[trigger] has_arn(next_roles, arn) && has_arn(next_users, arn)) by {
        if has_arn(next_roles, arn) && has_arn(next_users, arn) {
            let i = choose|i: int| 0 <= i < next_roles.len() && (#[trigger] next_roles[i]).arn == arn;
            let j = choose|j: int| 0 <= j < next_users.len() && (#[trigger] next_users[j]).arn == arn;
            assert(kind_of(next_roles[i].arn) == Principal::Role);
            assert(kind_of(next_users[j].arn) == Principal::User);
        }
    }
}

/// What a reconciled list holds: the carried-over entries of the old list,
/// and what the live resources of its kind state.
pub proof fn lemma_next_list_members(entries: Seq<Entry>, kind: Principal, snapshot: Seq<Entry>)
    requires
        agrees_by_arn(snapshot),
    ensures
        forall|e: Entry| #[trigger]
            next_list(entries, kind, snapshot).contains(e) <==> (entries.contains(e) && is_live(
                snapshot,
                e.arn,
            ) && kind_of(e.arn) != kind) || (snapshot.contains(e) && kind_of(e.arn) == kind),
{
    let next = next_list(entries, kind, snapshot);
    let carried = entries.filter(carried_over(kind, snapshot));
    let fresh = fresh_entries(kind, snapshot);
    lemma_next_list_shape(entries, kind, snapshot);
    lemma_filter_members(entries, carried_over(kind, snapshot));
    lemma_fresh_from_snapshot(kind, snapshot);
    assert forall|e: Entry| #[trigger]
        next.contains(e) <==> (entries.contains(e) && is_live(snapshot, e.arn) && kind_of(e.arn)
            != kind) || (snapshot.contains(e) && kind_of(e.arn) == kind) by {
        if next.contains(e) {
            let i = choose|i: int| 0 <= i < next.len() && next[i] == e;
            if i < carried.len() {
                assert(carried.contains(carried[i]));
            } else {
                assert(fresh.contains(fresh[i - carried.len()]));
            }
        }
        if entries.contains(e) && is_live(snapshot, e.arn) && kind_of(e.arn) != kind {
            assert(carried.contains(e));
            let i = choose|i: int| 0 <= i < carried.len() && carried[i] == e;
            assert(next[i] == e);
        }
        if snapshot.contains(e) && kind_of(e.arn) == kind {
            let j = choose|j: int| 0 <= j < snapshot.len() && snapshot[j] == e;
            assert(snapshot[j].arn == e.arn);
            let last = lemma_last_with_arn(snapshot, e.arn);
            assert(snapshot[last] == snapshot[j]);
            lemma_fresh_holds_last(kind, snapshot, last);
            let i = choose|i: int| 0 <= i < fresh.len() && fresh[i] == e;
            assert(next[carried.len() + i] == e);
        }
    }
}

/// Set equality, not order: the order in which the live resources are read
/// does not change which entries a reconciled list holds. Two snapshots that
/// hold the same resources, in any order, give the same set of entries.
pub proof fn lemma_snapshot_order_irrelevant(
    entries: Seq<Entry>,
    kind: Principal,
    snapshot: Seq<Entry>,
    reordered: Seq<Entry>,
)
    requires
        agrees_by_arn(snapshot),
        snapshot.to_set() == reordered.to_set(),
    ensures
        next_list(entries, kind, snapshot).to_set() == next_list(entries, kind, reordered).to_set(),
{
    assert forall|e: Entry| snapshot.contains(e) <==> reordered.contains(e) by {
        assert(snapshot.to_set().contains(e) <==> snapshot.contains(e));
        assert(reordered.to_set().contains(e) <==> reordered.contains(e));
    }
    assert forall|i: int, j: int|
        0 <= i < reordered.len() && 0 <= j < reordered.len() && (#[trigger] reordered[i]).arn == (
        #[trigger] reordered[j]).arn implies reordered[i] == reordered[j] by {
        assert(reordered.contains(reordered[i]));
        assert(reordered.contains(reordered[j]));
        let a = choose|a: int| 0 <= a < snapshot.len() && snapshot[a] == reordered[i];
        let b = choose|b: int| 0 <= b < snapshot.len() && snapshot[b] == reordered[j];
        assert(snapshot[a].arn == snapshot[b].arn);
    }
    assert forall|arn: Seq<char>| is_live(snapshot, arn) <==> is_live(reordered, arn) by {
        if is_live(snapshot, arn) {
            let i = choose|i: int| 0 <= i < snapshot.len() && (#[trigger] snapshot[i]).arn == arn;
            assert(snapshot.contains(snapshot[i]));
            let j = choose|j: int| 0 <= j < reordered.len() && reordered[j] == snapshot[i];
            assert(reordered[j].arn == arn);
        }
        if is_live(reordered, arn) {
            let i = choose|i: int| 0 <= i < reordered.len() && (#[trigger] reordered[i]).arn == arn;
            assert(reordered.contains(reordered[i]));
            let j = choose|j: int| 0 <= j < snapshot.len() && snapshot[j] == reordered[i];
            assert(snapshot[j].arn == arn);
        }
    }
    lemma_next_list_members(entries, kind, snapshot);
    lemma_next_list_members(entries, kind, reordered);
    let one = next_list(entries, kind, snapshot);
    let two = next_list(entries, kind, reordered);
    assert forall|e: Entry| one.to_set().contains(e) <==> two.to_set().contains(e) by {
        assert(one.to_set().contains(e) <==> one.contains(e));
        assert(two.to_set().contains(e) <==> two.contains(e));
    }
    assert(one.to_set() =~= two.to_set());
}

} // verus!
