//! The durable job file, a JSON array of `{"cron": .., "channel_id": ..}` records, and the
//! replay of its records into a registry at startup.
use crate::json::{member, member_of, parse_json, parsed_json, printed_json, print_json, Json};
use crate::menu::{decode_all, lemma_decode_all_prefix, required_text};
use crate::schedule::new_job_id;
use crate::schedule::{
    cron_valid, has_id, ids_distinct, stored_list, stored_of, stored_views, DataJobView,
    ScheduleRegistry, StoredJob, StoredJobView,
};
use vstd::prelude::*;

verus! {

// ---------------------------------------------------------------------------------------
// The file format.
/// A record of the job file.
pub open spec fn stored_job_of(j: Json) -> Option<StoredJobView> {
    match j {
        Json::Object(e) => {
            let cron = required_text(member(e@, "cron"@));
            let channel = match member(e@, "channel_id"@) {
                Some(Json::Int(i)) => if 0 <= i <= u64::MAX {
                    Some(i as u64)
                } else {
                    None
                },
                _ => None,
            };
            if cron is Some && channel is Some {
                Some(StoredJobView { cron: cron->0, channel_id: channel->0 })
            } else {
                None
            }
        },
        _ => None,
    }
}

pub open spec fn stored_job_decoder() -> spec_fn(Json) -> Option<StoredJobView> {
    |j: Json| stored_job_of(j)
}

/// The records of a job file: an array of records.
pub open spec fn jobs_of(j: Json) -> Option<Seq<StoredJobView>> {
    match j {
        Json::Array(a) => decode_all(a@, stored_job_decoder()),
        _ => None,
    }
}

/// What loading the job file gives: its records, or none where there is no file or its
/// contents are not a job list.
pub open spec fn loaded_jobs(contents: Option<Seq<u8>>) -> Seq<StoredJobView> {
    match contents {
        None => Seq::empty(),
        Some(b) => match parsed_json(b) {
            Some(j) => match jobs_of(j) {
                Some(s) => s,
                None => Seq::empty(),
            },
            None => Seq::empty(),
        },
    }
}

/// Decodes one record.
pub fn decode_stored_job(j: &Json) -> (r: Option<StoredJob>)
    ensures
        match r {
            Some(s) => stored_job_of(*j) == Some(s@),
            None => stored_job_of(*j) is None,
        },
{
    match j {
        Json::Object(e) => {
            let cron = match member_of(e, "cron") {
                Some(Json::Str(s)) => s.clone(),
                _ => {
                    return None;
                },
            };
            let channel_id = match member_of(e, "channel_id") {
                Some(Json::Int(i)) => {
                    if 0 <= *i && *i <= u64::MAX as i128 {
                        *i as u64
                    } else {
                        return None;
                    }
                },
                _ => {
                    return None;
                },
            };
            Some(StoredJob { cron, channel_id })
        },
        _ => None,
    }
}

/// Decodes the records of a job file.
pub fn decode_stored_jobs(j: &Json) -> (r: Option<Vec<StoredJob>>)
    ensures
        match r {
            Some(v) => jobs_of(*j) == Some(stored_views(v@)),
            None => jobs_of(*j) is None,
        },
{
    let items = match j {
        Json::Array(a) => a,
        _ => {
            return None;
        },
    };
    assert(jobs_of(*j) == decode_all(items@, stored_job_decoder()));
    let mut out: Vec<StoredJob> = Vec::new();
    let mut i: usize = 0;
    assert(items@.subrange(0, 0) =~= Seq::<Json>::empty());
    assert(stored_views(out@) =~= Seq::<StoredJobView>::empty());
    while i < items.len()
        invariant
            i <= items@.len(),
            jobs_of(*j) == decode_all(items@, stored_job_decoder()),
            decode_all(items@.subrange(0, i as int), stored_job_decoder()) == Some(
                stored_views(out@),
            ),
        decreases items.len() - i,
    {
        assert(items@.subrange(0, i + 1).drop_last() =~= items@.subrange(0, i as int));
        assert(items@.subrange(0, i + 1).last() == items@[i as int]);
        match decode_stored_job(&items[i]) {
            Some(s) => {
                let ghost before = out@;
                out.push(s);
                assert(stored_views(out@) =~= stored_views(before).push(s@));
            },
            None => {
                proof {
                    assert((stored_job_decoder())(items@[i as int]) is None);
                    lemma_decode_all_prefix(items@, stored_job_decoder(), i + 1);
                }
                return None;
            },
        }
        i += 1;
    }
    assert(items@.subrange(0, items@.len() as int) =~= items@);
    Some(out)
}

/// Reads the job file's contents, if there was a file; a missing or unreadable file, or one
/// that does not hold a job list, gives no records rather than an error.
pub fn load_jobs(contents: Option<&[u8]>) -> (r: Vec<StoredJob>)
    ensures
        stored_views(r@) == loaded_jobs(
            match contents {
                Some(b) => Some(b@),
                None => None,
            },
        ),
{
    let none: Vec<StoredJob> = Vec::new();
    assert(stored_views(none@) =~= Seq::<StoredJobView>::empty());
    match contents {
        None => none,
        Some(b) => match parse_json(b) {
            Some(j) => match decode_stored_jobs(&j) {
                Some(v) => v,
                None => none,
            },
            None => none,
        },
    }
}

/// The JSON tree of one record.
pub fn encode_stored_job(job: &StoredJob) -> (r: Json)
    ensures
        stored_job_of(r) == Some(job@),
{
    let mut e: Vec<(String, Json)> = Vec::new();
    e.push(("cron".to_owned(), Json::Str(job.cron.clone())));
    e.push(("channel_id".to_owned(), Json::Int(job.channel_id as i128)));
    proof {
        reveal_strlit("cron");
        reveal_strlit("channel_id");
        assert(e@[0].0@ == "cron"@);
        assert(e@[1].0@ == "channel_id"@);
        assert(e@.drop_first()[0] == e@[1]);
        assert(member(e@, "cron"@) == Some(e@[0].1));
        assert("cron"@ != "channel_id"@) by {
            assert("cron"@.len() != "channel_id"@.len());
        }
        assert(member(e@.drop_first(), "channel_id"@) == Some(e@[1].1));
        assert(member(e@, "channel_id"@) == Some(e@[1].1));
    }
    Json::Object(e)
}

/// The JSON tree of a job file; decoding it gives back the same records.
pub fn encode_stored_jobs(jobs: &Vec<StoredJob>) -> (r: Json)
    ensures
        jobs_of(r) == Some(stored_views(jobs@)),
{
    let mut items: Vec<Json> = Vec::new();
    let mut i: usize = 0;
    assert(stored_views(jobs@.subrange(0, 0)) =~= Seq::<StoredJobView>::empty());
    while i < jobs.len()
        invariant
            i <= jobs@.len(),
            items@.len() == i,
            decode_all(items@, stored_job_decoder()) == Some(
                stored_views(jobs@.subrange(0, i as int)),
            ),
        decreases jobs.len() - i,
    {
        let ghost before = items@;
        let j = encode_stored_job(&jobs[i]);
        items.push(j);
        assert(items@.drop_last() =~= before);
        assert(stored_views(jobs@.subrange(0, i + 1)) =~= stored_views(
            jobs@.subrange(0, i as int),
        ).push(jobs@[i as int]@));
        i += 1;
    }
    assert(jobs@.subrange(0, jobs@.len() as int) =~= jobs@);
    Json::Array(items)
}

/// The text written to the job file for `jobs`: the printed JSON of a tree that decodes to
/// exactly these records.
pub fn save_text(jobs: &Vec<StoredJob>) -> (r: String)
    ensures
        exists|j: Json| jobs_of(j) == Some(stored_views(jobs@)) && r@ == printed_json(j),
{
    let j = encode_stored_jobs(jobs);
    print_json(&j)
}

// ---------------------------------------------------------------------------------------
// Replaying records at startup.
/// The live jobs that replaying `persisted` under identifiers `ids` gives: each record whose
/// expression is accepted, in order, under the identifier at its position; the others are
/// dropped.
pub open spec fn restored(persisted: Seq<StoredJobView>, ids: Seq<u128>) -> Seq<DataJobView>
    decreases persisted.len(),
{
    if persisted.len() == 0 {
        Seq::empty()
    } else {
        let rest = restored(persisted.drop_last(), ids);
        let last = persisted.last();
        if cron_valid(last.cron) {
            rest.push(
                DataJobView {
                    uuid: ids[persisted.len() - 1],
                    cron: last.cron,
                    channel_id: last.channel_id,
                },
            )
        } else {
            rest
        }
    }
}

/// The number of records whose expression is accepted.
pub open spec fn accepted_count(persisted: Seq<StoredJobView>) -> nat
    decreases persisted.len(),
{
    if persisted.len() == 0 {
        0
    } else {
        accepted_count(persisted.drop_last()) + if cron_valid(persisted.last().cron) {
            1nat
        } else {
            0nat
        }
    }
}

pub open spec fn distinct_ids(ids: Seq<u128>) -> bool {
    forall|a: int, b: int| 0 <= a < ids.len() && 0 <= b < ids.len() && a != b ==> ids[a] != ids[b]
}

/// Whether `u` is one of the first `n` identifiers.
pub open spec fn id_among(ids: Seq<u128>, n: int, u: u128) -> bool {
    exists|m: int| 0 <= m < n && ids[m] == u
}

/// Each job of a replay carries one of the identifiers of the records before it.
proof fn lemma_restored_ids(persisted: Seq<StoredJobView>, ids: Seq<u128>)
    requires
        persisted.len() <= ids.len(),
    ensures
        forall|k: int|
            0 <= k < restored(persisted, ids).len() ==> id_among(
                ids,
                persisted.len() as int,
                (#[trigger] restored(persisted, ids)[k]).uuid,
            ),
    decreases persisted.len(),
{
    if persisted.len() > 0 {
        lemma_restored_ids(persisted.drop_last(), ids);
        let rest = restored(persisted.drop_last(), ids);
        let all = restored(persisted, ids);
        let n = persisted.len() - 1;
        assert forall|k: int| 0 <= k < all.len() implies id_among(
            ids,
            persisted.len() as int,
            (#[trigger] all[k]).uuid,
        ) by {
            if k < rest.len() {
                assert(all[k] == rest[k]);
                assert(id_among(ids, n, rest[k].uuid));
                let m = choose|m: int| 0 <= m < n && ids[m] == rest[k].uuid;
                assert(0 <= m < persisted.len() && ids[m] == all[k].uuid);
            } else {
                assert(all[k].uuid == ids[n]);
            }
        }
    }
}

/// The live jobs that replaying `persisted` under identifiers `ids` leaves, one record after
/// the other: a record joins under the identifier at its position where its expression is
/// accepted and that identifier is not yet in use; otherwise it is dropped.
pub open spec fn replayed(persisted: Seq<StoredJobView>, ids: Seq<u128>) -> Seq<DataJobView>
    decreases persisted.len(),
{
    if persisted.len() == 0 {
        Seq::empty()
    } else {
        let rest = replayed(persisted.drop_last(), ids);
        let last = persisted.last();
        let id = ids[persisted.len() - 1];
        if cron_valid(last.cron) && !has_id(rest, id) {
            rest.push(DataJobView { uuid: id, cron: last.cron, channel_id: last.channel_id })
        } else {
            rest
        }
    }
}

/// Replays `persisted` into a new registry under the given identifiers, one per record.
/// Records whose expression the scheduler does not accept, or whose identifier is already
/// taken by an earlier record, are dropped.
pub fn restore_with_ids(persisted: &Vec<StoredJob>, ids: &Vec<u128>) -> (r: ScheduleRegistry)
    requires
        ids@.len() == persisted@.len(),
    ensures
        r.wf(),
        r@ == replayed(stored_views(persisted@), ids@),
{
    let mut reg = ScheduleRegistry::new();
    let mut i: usize = 0;
    while i < persisted.len()
        invariant
            i <= persisted@.len(),
            ids@.len() == persisted@.len(),
            reg.wf(),
            reg@ == replayed(stored_views(persisted@).subrange(0, i as int), ids@),
        decreases persisted.len() - i,
    {
        let ghost all = stored_views(persisted@);
        let ghost prefix = all.subrange(0, i + 1);
        assert(prefix.drop_last() =~= all.subrange(0, i as int));
        assert(prefix.last() == persisted@[i as int]@);
        let _ = reg.add_with_id(persisted[i].cron.clone(), persisted[i].channel_id, ids[i]);
        i += 1;
    }
    assert(stored_views(persisted@).subrange(0, persisted@.len() as int) =~= stored_views(
        persisted@,
    ));
    reg
}

/// Replays `persisted` into a new registry under fresh random identifiers, drawn one per
/// record before the replay. Whatever was drawn, the outcome is the replay under those
/// identifiers, and it holds a job as soon as some record's expression is accepted.
pub fn restore(persisted: &Vec<StoredJob>) -> (r: ScheduleRegistry)
    ensures
        r.wf(),
        exists|ids: Seq<u128>|
            ids.len() == persisted@.len() && r@ == replayed(stored_views(persisted@), ids),
        accepted_count(stored_views(persisted@)) > 0 ==> r@.len() > 0,
{
    let mut ids: Vec<u128> = Vec::new();
    while ids.len() < persisted.len()
        invariant
            ids@.len() <= persisted@.len(),
        decreases persisted.len() - ids.len(),
    {
        ids.push(new_job_id());
    }
    let r = restore_with_ids(persisted, &ids);
    proof {
        lemma_replay_keeps_a_job(stored_views(persisted@), ids@);
    }
    r
}

/// A replay in which some record's expression is accepted holds at least one job.
pub proof fn lemma_replay_keeps_a_job(persisted: Seq<StoredJobView>, ids: Seq<u128>)
    ensures
        accepted_count(persisted) > 0 ==> replayed(persisted, ids).len() > 0,
    decreases persisted.len(),
{
    if persisted.len() > 0 {
        let rest = replayed(persisted.drop_last(), ids);
        lemma_replay_keeps_a_job(persisted.drop_last(), ids);
        let id = ids[persisted.len() - 1];
        if cron_valid(persisted.last().cron) && has_id(rest, id) {
            assert(rest.len() > 0);
        }
    }
}

/// With distinct identifiers no record finds its identifier taken, so the replay keeps
/// exactly the records whose expression is accepted.
pub proof fn lemma_replay_with_distinct_ids(persisted: Seq<StoredJobView>, ids: Seq<u128>)
    requires
        persisted.len() <= ids.len(),
        distinct_ids(ids),
    ensures
        replayed(persisted, ids) == restored(persisted, ids),
    decreases persisted.len(),
{
    if persisted.len() > 0 {
        let n = persisted.len() - 1;
        lemma_replay_with_distinct_ids(persisted.drop_last(), ids);
        lemma_restored_ids(persisted.drop_last(), ids);
        let rest = restored(persisted.drop_last(), ids);
        if has_id(rest, ids[n]) {
            let k = choose|k: int| 0 <= k < rest.len() && rest[k].uuid == ids[n];
            assert(id_among(ids, n, rest[k].uuid));
            let m = choose|m: int| 0 <= m < n && ids[m] == rest[k].uuid;
        }
    }
}

// ---------------------------------------------------------------------------------------
// Laws.
/// Replaying records under distinct identifiers yields one live job for each record whose
/// expression is accepted, and no two of them share an identifier: all `N` records valid
/// give `N` jobs, and one rejected record among them gives `N - 1`.
pub proof fn lemma_restore_counts(persisted: Seq<StoredJobView>, ids: Seq<u128>)
    requires
        ids.len() == persisted.len(),
        distinct_ids(ids),
    ensures
        replayed(persisted, ids) == restored(persisted, ids),
        restored(persisted, ids).len() == accepted_count(persisted),
        ids_distinct(restored(persisted, ids)),
        (forall|m: int| 0 <= m < persisted.len() ==> cron_valid(#[trigger] persisted[m].cron))
            ==> restored(persisted, ids).len() == persisted.len(),
    decreases persisted.len(),
{
    lemma_replay_with_distinct_ids(persisted, ids);
    lemma_restore_count_prefix(persisted, ids);
    lemma_restored_ids_distinct(persisted, ids);
    if forall|m: int| 0 <= m < persisted.len() ==> cron_valid(#[trigger] persisted[m].cron) {
        lemma_all_accepted(persisted);
    }
}

proof fn lemma_restore_count_prefix(persisted: Seq<StoredJobView>, ids: Seq<u128>)
    ensures
        restored(persisted, ids).len() == accepted_count(persisted),
    decreases persisted.len(),
{
    if persisted.len() > 0 {
        lemma_restore_count_prefix(persisted.drop_last(), ids);
    }
}

proof fn lemma_all_accepted(persisted: Seq<StoredJobView>)
    requires
        forall|m: int| 0 <= m < persisted.len() ==> cron_valid(#[trigger] persisted[m].cron),
    ensures
        accepted_count(persisted) == persisted.len(),
    decreases persisted.len(),
{
    if persisted.len() > 0 {
        let rest = persisted.drop_last();
        assert forall|m: int| 0 <= m < rest.len() implies cron_valid(#[trigger] rest[m].cron) by {
            assert(rest[m] == persisted[m]);
        }
        lemma_all_accepted(rest);
        assert(cron_valid(persisted[persisted.len() - 1].cron));
    }
}

/// With one identifier per record, the jobs of a replay carry distinct identifiers, each
/// taken from a position at or before its record.
proof fn lemma_restored_ids_distinct(persisted: Seq<StoredJobView>, ids: Seq<u128>)
    requires
        persisted.len() <= ids.len(),
        distinct_ids(ids),
    ensures
        ids_distinct(restored(persisted, ids)),
    decreases persisted.len(),
{
    if persisted.len() > 0 {
        let rest = restored(persisted.drop_last(), ids);
        lemma_restored_ids_distinct(persisted.drop_last(), ids);
        lemma_restored_ids(persisted.drop_last(), ids);
        let all = restored(persisted, ids);
        let n = persisted.len() - 1;
        assert forall|a: int, b: int|
            0 <= a < all.len() && 0 <= b < all.len() && a != b implies all[a].uuid
            != all[b].uuid by {
            if a < rest.len() && b < rest.len() {
                assert(all[a] == rest[a]);
                assert(all[b] == rest[b]);
            } else if a < rest.len() {
                assert(all[a] == rest[a]);
                assert(id_among(ids, n, rest[a].uuid));
                let m = choose|m: int| 0 <= m < n && ids[m] == rest[a].uuid;
                assert(all[b].uuid == ids[n]);
            } else {
                assert(all[b] == rest[b]);
                assert(id_among(ids, n, rest[b].uuid));
                let m = choose|m: int| 0 <= m < n && ids[m] == rest[b].uuid;
                assert(all[a].uuid == ids[n]);
            }
        }
    }
}

/// Saving after an add records the earlier jobs unchanged, with the new job's record last.
pub proof fn lemma_records_after_add(jobs: Seq<DataJobView>, job: DataJobView)
    ensures
        stored_list(jobs.push(job)) == stored_list(jobs).push(stored_of(job)),
{
    assert(stored_list(jobs.push(job)) =~= stored_list(jobs).push(stored_of(job)));
}

/// Saving after removing the job at position `i` records the other jobs unchanged, in order.
pub proof fn lemma_records_after_remove(jobs: Seq<DataJobView>, i: int)
    requires
        0 <= i < jobs.len(),
    ensures
        stored_list(jobs.remove(i)) == stored_list(jobs).remove(i),
{
    assert(stored_list(jobs.remove(i)) =~= stored_list(jobs).remove(i));
}

/// Loading bytes that parse to a tree of the job file gives back exactly the records that the
/// tree holds; so a file whose text parses back to the tree that was saved loads the saved
/// records.
pub proof fn lemma_load_of_saved(b: Seq<u8>, j: Json, jobs: Seq<StoredJobView>)
    requires
        parsed_json(b) == Some(j),
        jobs_of(j) == Some(jobs),
    ensures
        loaded_jobs(Some(b)) == jobs,
{
}

/// After an add, loading a job file whose bytes parse to a tree of the saved records gives the
/// records saved before with the new job's record last.
pub proof fn lemma_reload_after_add(
    jobs: Seq<DataJobView>,
    job: DataJobView,
    b: Seq<u8>,
    j: Json,
)
    requires
        parsed_json(b) == Some(j),
        jobs_of(j) == Some(stored_list(jobs.push(job))),
    ensures
        loaded_jobs(Some(b)) == stored_list(jobs).push(stored_of(job)),
{
    lemma_records_after_add(jobs, job);
}

/// After removing the job at position `i`, loading a job file whose bytes parse to a tree of
/// the saved records gives the earlier records with just that one left out.
pub proof fn lemma_reload_after_remove(jobs: Seq<DataJobView>, i: int, b: Seq<u8>, j: Json)
    requires
        0 <= i < jobs.len(),
        parsed_json(b) == Some(j),
        jobs_of(j) == Some(stored_list(jobs.remove(i))),
    ensures
        loaded_jobs(Some(b)) == stored_list(jobs).remove(i),
{
    lemma_records_after_remove(jobs, i);
}

} // verus!
