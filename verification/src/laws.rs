//! The laws of reconciliation, stated and proved once for all runs.

use vstd::prelude::*;

use crate::family::Family;
use crate::reconcile::Decision;
use crate::reconcile::Reconciler;
use crate::reconcile::count_created_spec;
use crate::reconcile::decide_spec;
use crate::reconcile::pair_targets;
use crate::reconcile::targets_spec;

verus! {

/// An empty remote value sequence never leads to a write: the pair is
/// skipped with a warning, since values are never created, only replaced.
pub proof fn lemma_empty_remote_never_written(ip: Option<Seq<char>>)
    ensures
        decide_spec(ip, Option::Some(Seq::<Seq<char>>::empty())) != Decision::Update,
        ip is Some ==> decide_spec(ip, Option::Some(Seq::<Seq<char>>::empty()))
            == Decision::SkipEmpty,
{
}

/// A remote first value equal to the discovered address leads to no write.
pub proof fn lemma_matching_value_not_written(a: Seq<char>, vs: Seq<Seq<char>>)
    requires
        vs.len() > 0,
        vs[0] == a,
    ensures
        decide_spec(Option::Some(a), Option::Some(vs)) == Decision::NoChange,
{
}

/// A remote first value different from the discovered address leads to the
/// one decision that writes; what is then written is the discovered address
/// itself, at the fixed TTL (`wire::write_payload`).
pub proof fn lemma_differing_value_written(a: Seq<char>, vs: Seq<Seq<char>>)
    requires
        vs.len() > 0,
        vs[0] != a,
    ensures
        decide_spec(Option::Some(a), Option::Some(vs)) == Decision::Update,
{
}

/// Every target of a run's worklist takes its name from the record list.
proof fn lemma_target_names_come_from_records(records: Seq<Seq<char>>, has4: bool, has6: bool)
    ensures
        forall|k: int|
            0 <= k < targets_spec(records, has4, has6).len() ==> records.contains(
                #[trigger] targets_spec(records, has4, has6)[k].0,
            ),
    decreases records.len(),
{
    if records.len() > 0 {
        lemma_target_names_come_from_records(records.drop_first(), has4, has6);
        let whole = targets_spec(records, has4, has6);
        let head = pair_targets(records[0], has4, has6);
        let tail = targets_spec(records.drop_first(), has4, has6);
        assert forall|k: int| 0 <= k < whole.len() implies records.contains(whole[k].0) by {
            if k < head.len() {
                assert(head[k].0 == records[0]);
                assert(records.contains(records[0]));
            } else {
                assert(whole[k] == tail[k - head.len()]);
                let name = tail[k - head.len()].0;
                let m = choose|m: int|
                    0 <= m < records.drop_first().len() && records.drop_first()[m] == name;
                assert(records[m + 1] == name);
                assert(records.contains(name));
            }
        }
    }
}

/// With the record names pairwise distinct — an ordered set, as the
/// configuration supplies them — no (record, family) pair stands twice in a
/// run's worklist: at most one write can ever be issued for a pair.
pub proof fn lemma_targets_distinct(records: Seq<Seq<char>>, has4: bool, has6: bool)
    requires
        forall|i: int, j: int| 0 <= i < j < records.len() ==> records[i] != records[j],
    ensures
        forall|i: int, j: int|
            0 <= i < j < targets_spec(records, has4, has6).len() ==> targets_spec(
                records,
                has4,
                has6,
            )[i] != targets_spec(records, has4, has6)[j],
    decreases records.len(),
{
    if records.len() > 0 {
        let whole = targets_spec(records, has4, has6);
        let head = pair_targets(records[0], has4, has6);
        let tail = targets_spec(records.drop_first(), has4, has6);
        assert(forall|i: int, j: int|
            0 <= i < j < records.drop_first().len() ==> records.drop_first()[i]
                != records.drop_first()[j]);
        lemma_targets_distinct(records.drop_first(), has4, has6);
        lemma_target_names_come_from_records(records.drop_first(), has4, has6);
        assert forall|i: int, j: int| 0 <= i < j < whole.len() implies whole[i] != whole[j] by {
            if j < head.len() {
                assert(head[0].1 == Family::V4 && head[1].1 == Family::V6);
            } else if i >= head.len() {
                assert(whole[i] == tail[i - head.len()]);
                assert(whole[j] == tail[j - head.len()]);
            } else {
                assert(whole[i].0 == records[0]);
                let name = tail[j - head.len()].0;
                let m = choose|m: int|
                    0 <= m < records.drop_first().len() && records.drop_first()[m] == name;
                assert(records[m + 1] == name);
                assert(records[m + 1] != records[0]);
                assert(whole[j].0 == name);
            }
        }
    }
}

/// The changed-count a well-formed reconciler reports equals the number of
/// write statuses it has seen that were 201 Created.
pub proof fn lemma_changed_counts_created(r: Reconciler)
    requires
        r.wf(),
    ensures
        r.changed == count_created_spec(r.statuses@),
{
}

/// A write status other than 201 — a 200 among them — never raises the
/// changed-count.
pub proof fn lemma_non_created_not_counted(statuses: Seq<u16>, status: u16)
    requires
        status != 201,
    ensures
        count_created_spec(statuses.push(status)) == count_created_spec(statuses),
{
    crate::reconcile::lemma_count_created_push(statuses, status);
}

/// The remote first value after one pass over a pair: an update replaces
/// the whole rrset with the one discovered address, every other decision
/// leaves the stored values alone.
pub open spec fn after_pass_spec(ip: Option<Seq<char>>, remote: Option<Seq<Seq<char>>>) -> Option<
    Seq<Seq<char>>,
> {
    if decide_spec(ip, remote) == Decision::Update {
        Option::Some(seq![ip.unwrap()])
    } else {
        remote
    }
}

/// Idempotence of one pair: a second pass over the state a first pass
/// leaves behind issues no write, whatever the first pass found, as long as
/// the discovered address has not moved.
pub proof fn lemma_second_pass_no_write(ip: Option<Seq<char>>, remote: Option<Seq<Seq<char>>>)
    ensures
        decide_spec(ip, after_pass_spec(ip, remote)) != Decision::Update,
{
    if decide_spec(ip, remote) == Decision::Update {
        let a = ip.unwrap();
        assert(seq![a].len() == 1);
        assert(seq![a][0] == a);
    }
}

/// How many pairs of a run decide to write, walking the discovered
/// addresses and the remote states side by side.
pub open spec fn update_count_spec(
    ips: Seq<Option<Seq<char>>>,
    remotes: Seq<Option<Seq<Seq<char>>>>,
) -> nat
    decreases remotes.len(),
{
    if remotes.len() == 0 || ips.len() == 0 {
        0
    } else {
        (if decide_spec(ips[0], remotes[0]) == Decision::Update {
            1nat
        } else {
            0nat
        }) + update_count_spec(ips.drop_first(), remotes.drop_first())
    }
}

/// Idempotence of a run: repeated on the state it produced — every write
/// taken effect, everything else unmoved, addresses unchanged — a run
/// issues zero writes.
pub proof fn lemma_second_run_zero_writes(
    ips: Seq<Option<Seq<char>>>,
    remotes: Seq<Option<Seq<Seq<char>>>>,
    after: Seq<Option<Seq<Seq<char>>>>,
)
    requires
        ips.len() == remotes.len(),
        after.len() == remotes.len(),
        forall|i: int| 0 <= i < remotes.len() ==> after[i] == after_pass_spec(ips[i], remotes[i]),
    ensures
        update_count_spec(ips, after) == 0,
    decreases remotes.len(),
{
    if remotes.len() > 0 {
        lemma_second_pass_no_write(ips[0], remotes[0]);
        assert(forall|i: int|
            0 <= i < remotes.drop_first().len() ==> after.drop_first()[i] == after_pass_spec(
                ips.drop_first()[i],
                remotes.drop_first()[i],
            ));
        lemma_second_run_zero_writes(ips.drop_first(), remotes.drop_first(), after.drop_first());
    }
}

} // verus!
