//! The registry of scheduled menu posts: each job re-posts the daily menu into a channel on
//! a cron schedule, under a generated identifier.
use crate::text::{split_on, split_text, views};
use vstd::prelude::*;
use vstd::string::StringExecFns;

verus! {

/// Whether croner, as tokio-cron-scheduler sets it up, parses a schedule. It requires the
/// seconds field, and also takes an optional seventh (year) field and `@` nicknames.
pub uninterp spec fn cron_accepted(expr: Seq<char>) -> bool;

/// Relies on tokio_cron_scheduler::JobBuilder::with_schedule, which parses the expression with
/// croner, seconds required, and fails on one that croner refuses. The job constructors parse
/// with the same settings and, in addition, `dom_and_dow`, which changes when a job fires but
/// not which expressions parse.
#[verifier::external_body]
fn cron_is_valid(expr: &str) -> (r: bool)
    ensures
        r == cron_accepted(expr@),
{
    tokio_cron_scheduler::JobBuilder::new().with_schedule(expr).is_ok()
}

/// Relies on uuid::Uuid::new_v4: a random identifier, of which nothing is promised.
#[verifier::external_body]
pub(crate) fn new_job_id() -> (r: u128) {
    uuid::Uuid::new_v4().as_u128()
}

/// The lower-case hexadecimal digit of `n`, 0 to 15.
pub open spec fn hex_digit(n: int) -> char {
    seq!['0', '1', '2', '3', '4', '5', '6', '7', '8', '9', 'a', 'b', 'c', 'd', 'e', 'f'][n]
}

/// Hexadecimal digit `k` of a 128-bit value, the most significant first.
pub open spec fn nibble(id: u128, k: int) -> int {
    ((id >> ((124 - 4 * k) as u128)) & 15u128) as int
}

/// The number of hyphens before position `i` of a UUID's text.
pub open spec fn hyphens_before(i: int) -> int {
    if i < 8 {
        0
    } else if i < 13 {
        1
    } else if i < 18 {
        2
    } else if i < 23 {
        3
    } else {
        4
    }
}

/// The hyphenated lower-case text of a UUID: its 32 hexadecimal digits, most significant
/// first, in groups of 8, 4, 4, 4 and 12 joined by `-`.
pub open spec fn uuid_text(id: u128) -> Seq<char> {
    Seq::new(
        36,
        |i: int|
            if i == 8 || i == 13 || i == 18 || i == 23 {
                '-'
            } else {
                hex_digit(nibble(id, i - hyphens_before(i)))
            },
    )
}

/// The UUID that a text spells, if it spells one.
pub uninterp spec fn uuid_of_text(s: Seq<char>) -> Option<u128>;

/// Relies on uuid::Uuid's Display, the hyphenated lower-case form, of `Uuid::from_u128`,
/// whose bytes are the value's big-endian bytes.
#[verifier::external_body]
fn job_id_text(id: u128) -> (r: String)
    ensures
        r@ == uuid_text(id),
{
    uuid::Uuid::from_u128(id).to_string()
}

/// Relies on uuid::Uuid::parse_str, which accepts the hyphenated, simple, URN and braced forms.
#[verifier::external_body]
fn parse_job_id(s: &str) -> (r: Option<u128>)
    ensures
        r == uuid_of_text(s@),
{
    uuid::Uuid::parse_str(s).ok().map(|u| u.as_u128())
}

/// The number of non-empty pieces.
pub open spec fn word_count(pieces: Seq<Seq<char>>) -> nat
    decreases pieces.len(),
{
    if pieces.len() == 0 {
        0
    } else {
        word_count(pieces.drop_last()) + if pieces.last().len() > 0 {
            1nat
        } else {
            0nat
        }
    }
}

/// An expression of six space-separated fields: seconds, minutes, hours, day of month,
/// month and day of week.
pub open spec fn six_fields(expr: Seq<char>) -> bool {
    word_count(split_on(expr, ' ')) == 6
}

/// A schedule that a job may have: six fields, which the scheduler parses.
pub open spec fn cron_valid(expr: Seq<char>) -> bool {
    six_fields(expr) && cron_accepted(expr)
}

/// Whether an expression has six space-separated fields.
pub fn has_six_fields(expr: &str) -> (r: bool)
    ensures
        r == six_fields(expr@),
{
    let pieces = split_text(expr, ' ');
    let mut count: usize = 0;
    let mut i: usize = 0;
    while i < pieces.len()
        invariant
            i <= pieces@.len(),
            views(pieces@) == split_on(expr@, ' '),
            count == word_count(views(pieces@).subrange(0, i as int)),
            count <= i,
        decreases pieces.len() - i,
    {
        let ghost prefix = views(pieces@).subrange(0, i + 1);
        assert(prefix.drop_last() =~= views(pieces@).subrange(0, i as int));
        assert(prefix.last() == pieces@[i as int]@);
        if pieces[i].unicode_len() > 0 {
            count += 1;
        }
        i += 1;
    }
    assert(views(pieces@).subrange(0, pieces@.len() as int) =~= views(pieces@));
    count == 6
}

/// Why a schedule request failed.
#[derive(Debug, PartialEq, Eq, Structural)]
pub enum ScheduleError {
    /// The cron expression does not have six fields, or does not parse; nothing was registered.
    InvalidCron,
    /// No job has the identifier; nothing was changed.
    NotFound,
    /// The identifier drawn for a new job is already in use; nothing was registered.
    IdTaken,
    /// The text does not spell a job identifier; nothing was changed.
    InvalidId,
}

/// A live scheduled job.
#[derive(Debug)]
pub struct DataJob {
    pub uuid: u128,
    pub cron: String,
    pub channel_id: u64,
}

pub struct DataJobView {
    pub uuid: u128,
    pub cron: Seq<char>,
    pub channel_id: u64,
}

impl View for DataJob {
    type V = DataJobView;

    open spec fn view(&self) -> DataJobView {
        DataJobView { uuid: self.uuid, cron: self.cron@, channel_id: self.channel_id }
    }
}

impl DataJob {
    /// A copy of this job.
    pub fn copy(&self) -> (r: DataJob)
        ensures
            r@ == self@,
    {
        DataJob { uuid: self.uuid, cron: self.cron.clone(), channel_id: self.channel_id }
    }
}

/// The durable record of a job: what it takes to schedule it again.
#[derive(Debug)]
pub struct StoredJob {
    pub cron: String,
    pub channel_id: u64,
}

pub struct StoredJobView {
    pub cron: Seq<char>,
    pub channel_id: u64,
}

impl View for StoredJob {
    type V = StoredJobView;

    open spec fn view(&self) -> StoredJobView {
        StoredJobView { cron: self.cron@, channel_id: self.channel_id }
    }
}

pub open spec fn stored_of(j: DataJobView) -> StoredJobView {
    StoredJobView { cron: j.cron, channel_id: j.channel_id }
}

impl StoredJob {
    /// The durable record of a live job.
    pub fn from(val: &DataJob) -> (r: StoredJob)
        ensures
            r@ == stored_of(val@),
    {
        StoredJob { cron: val.cron.clone(), channel_id: val.channel_id }
    }
}

pub open spec fn job_views(v: Seq<DataJob>) -> Seq<DataJobView> {
    v.map_values(|j: DataJob| j@)
}

pub open spec fn stored_views(v: Seq<StoredJob>) -> Seq<StoredJobView> {
    v.map_values(|j: StoredJob| j@)
}

/// The durable records of a list of jobs, in order.
pub open spec fn stored_list(jobs: Seq<DataJobView>) -> Seq<StoredJobView> {
    jobs.map_values(|j: DataJobView| stored_of(j))
}

/// Whether some job has identifier `id`.
pub open spec fn has_id(jobs: Seq<DataJobView>, id: u128) -> bool {
    exists|i: int| 0 <= i < jobs.len() && jobs[i].uuid == id
}

/// No two jobs share an identifier.
pub open spec fn ids_distinct(jobs: Seq<DataJobView>) -> bool {
    forall|i: int, j: int| 0 <= i < jobs.len() && 0 <= j < jobs.len() && i != j ==> jobs[i].uuid != jobs[j].uuid
}

/// The jobs that target `channel`, or all jobs where no channel is given, in order.
pub open spec fn jobs_for(jobs: Seq<DataJobView>, channel: Option<u64>) -> Seq<DataJobView>
    decreases jobs.len(),
{
    if jobs.len() == 0 {
        Seq::empty()
    } else {
        let rest = jobs_for(jobs.drop_last(), channel);
        if channel is None || jobs.last().channel_id == channel->0 {
            rest.push(jobs.last())
        } else {
            rest
        }
    }
}

/// The reply to a listing with no jobs.
pub const NO_JOBS: &'static str = "Ei ajastettuja ruokalistoja";

/// One line of a listing: the job's identifier and its expression, each in backquotes.
pub open spec fn listing_line(j: DataJobView) -> Seq<char> {
    "`"@ + uuid_text(j.uuid) + "` - `"@ + j.cron + "`"@
}

/// The listing lines of `jobs`, separated by newlines.
pub open spec fn joined_lines(jobs: Seq<DataJobView>) -> Seq<char>
    decreases jobs.len(),
{
    if jobs.len() == 0 {
        Seq::empty()
    } else if jobs.len() == 1 {
        listing_line(jobs[0])
    } else {
        joined_lines(jobs.drop_last()) + "\n"@ + listing_line(jobs.last())
    }
}

/// The listing of a channel's jobs, or a notice where it has none.
pub open spec fn listing_text(jobs: Seq<DataJobView>, channel: u64) -> Seq<char> {
    let selected = jobs_for(jobs, Some(channel));
    if selected.len() == 0 {
        NO_JOBS@
    } else {
        joined_lines(selected)
    }
}

/// The live jobs, in the order they were added.
pub struct ScheduleRegistry {
    jobs: Vec<DataJob>,
}

impl View for ScheduleRegistry {
    type V = Seq<DataJobView>;

    closed spec fn view(&self) -> Seq<DataJobView> {
        job_views(self.jobs@)
    }
}

impl ScheduleRegistry {
    /// Every job has its own identifier.
    pub open spec fn wf(&self) -> bool {
        ids_distinct(self@)
    }

    /// A registry with no jobs.
    pub fn new() -> (r: ScheduleRegistry)
        ensures
            r.wf(),
            r@ == Seq::<DataJobView>::empty(),
    {
        let r = ScheduleRegistry { jobs: Vec::new() };
        assert(r@ =~= Seq::<DataJobView>::empty());
        r
    }

    /// The number of live jobs.
    pub fn len(&self) -> (r: usize)
        ensures
            r == self@.len(),
    {
        self.jobs.len()
    }

    /// Whether a job has identifier `id`.
    pub fn contains(&self, id: u128) -> (r: bool)
        ensures
            r == has_id(self@, id),
    {
        self.position(id).is_some()
    }

    fn position(&self, id: u128) -> (r: Option<usize>)
        ensures
            match r {
                Some(i) => i < self@.len() && self@[i as int].uuid == id && forall|k: int|
                    0 <= k < i ==> self@[k].uuid != id,
                None => !has_id(self@, id),
            },
    {
        let mut i: usize = 0;
        while i < self.jobs.len()
            invariant
                i <= self.jobs@.len(),
                forall|k: int| 0 <= k < i ==> self@[k].uuid != id,
            decreases self.jobs.len() - i,
        {
            assert(self@[i as int] == self.jobs@[i as int]@);
            if self.jobs[i].uuid == id {
                return Some(i);
            }
            i += 1;
        }
        None
    }

    /// Registers a job under identifier `id`, after the others. The cron expression is
    /// checked first; an identifier already in use is refused. On failure nothing changes.
    pub fn add_with_id(&mut self, cron: String, channel_id: u64, id: u128) -> (r: Result<
        DataJob,
        ScheduleError,
    >)
        requires
            old(self).wf(),
        ensures
            final(self).wf(),
            !cron_valid(cron@) ==> r == Err::<DataJob, ScheduleError>(ScheduleError::InvalidCron),
            cron_valid(cron@) && has_id(old(self)@, id) ==> r == Err::<DataJob, ScheduleError>(
                ScheduleError::IdTaken,
            ),
            cron_valid(cron@) && !has_id(old(self)@, id) ==> r is Ok,
            r is Err ==> final(self)@ == old(self)@,
            r is Ok ==> r->Ok_0@ == (DataJobView { uuid: id, cron: cron@, channel_id })
                && final(self)@ == old(self)@.push(r->Ok_0@),
    {
        if !(has_six_fields(cron.as_str()) && cron_is_valid(cron.as_str())) {
            return Err(ScheduleError::InvalidCron);
        }
        if self.contains(id) {
            return Err(ScheduleError::IdTaken);
        }
        let job = DataJob { uuid: id, cron, channel_id };
        let copy = job.copy();
        let ghost before = self.jobs@;
        self.jobs.push(job);
        assert(self@ =~= job_views(before).push(copy@));
        assert(ids_distinct(self@)) by {
            assert forall|i: int, j: int|
                0 <= i < self@.len() && 0 <= j < self@.len() && i != j implies self@[i].uuid
                != self@[j].uuid by {
                if i == self@.len() - 1 {
                    assert(self@[j] == job_views(before)[j]);
                } else if j == self@.len() - 1 {
                    assert(self@[i] == job_views(before)[i]);
                }
            }
        }
        Ok(copy)
    }

    /// Registers a job for `channel_id` under a fresh random identifier. An expression that
    /// the scheduler does not accept is refused, and so is a drawn identifier already in use.
    pub fn add(&mut self, cron: String, channel_id: u64) -> (r: Result<DataJob, ScheduleError>)
        requires
            old(self).wf(),
        ensures
            final(self).wf(),
            !cron_valid(cron@) ==> r == Err::<DataJob, ScheduleError>(ScheduleError::InvalidCron),
            cron_valid(cron@) ==> r is Ok || r == Err::<DataJob, ScheduleError>(
                ScheduleError::IdTaken,
            ),
            r == Err::<DataJob, ScheduleError>(ScheduleError::IdTaken) ==> old(self)@.len() > 0,
            r is Err ==> final(self)@ == old(self)@,
            r is Ok ==> r->Ok_0.cron@ == cron@ && r->Ok_0.channel_id == channel_id && !has_id(
                old(self)@,
                r->Ok_0.uuid,
            ) && final(self)@ == old(self)@.push(r->Ok_0@),
    {
        let id = new_job_id();
        self.add_with_id(cron, channel_id, id)
    }

    /// Removes the job with identifier `id`; the others keep their order.
    pub fn remove(&mut self, id: u128) -> (r: Result<(), ScheduleError>)
        requires
            old(self).wf(),
        ensures
            final(self).wf(),
            r is Err <==> !has_id(old(self)@, id),
            r is Err ==> r == Err::<(), ScheduleError>(ScheduleError::NotFound) && final(self)@ == old(
                self,
            )@,
            r is Ok ==> exists|i: int|
                0 <= i < old(self)@.len() && old(self)@[i].uuid == id && final(self)@ == old(
                    self,
                )@.remove(i),
            !has_id(final(self)@, id),
    {
        match self.position(id) {
            None => Err(ScheduleError::NotFound),
            Some(i) => {
                let ghost before = self@;
                let _ = self.jobs.remove(i);
                assert(self@ =~= before.remove(i as int));
                assert(!has_id(self@, id)) by {
                    assert forall|k: int| 0 <= k < self@.len() implies self@[k].uuid != id by {
                        if k < i {
                        } else {
                            assert(self@[k] == before[k + 1]);
                        }
                    }
                }
                assert(ids_distinct(self@)) by {
                    assert forall|a: int, b: int|
                        0 <= a < self@.len() && 0 <= b < self@.len() && a != b implies self@[a].uuid
                        != self@[b].uuid by {
                        let a2 = if a < i { a } else { a + 1 };
                        let b2 = if b < i { b } else { b + 1 };
                        assert(self@[a] == before[a2]);
                        assert(self@[b] == before[b2]);
                    }
                }
                Ok(())
            },
        }
    }

    /// The jobs that target `channel_id`, or all jobs where none is given, in order.
    pub fn list(&self, channel_id: Option<u64>) -> (r: Vec<DataJob>)
        ensures
            job_views(r@) == jobs_for(self@, channel_id),
    {
        let mut out: Vec<DataJob> = Vec::new();
        let mut i: usize = 0;
        assert(self@.subrange(0, 0) =~= Seq::<DataJobView>::empty());
        assert(job_views(out@) =~= Seq::<DataJobView>::empty());
        while i < self.jobs.len()
            invariant
                i <= self.jobs@.len(),
                self@.len() == self.jobs@.len(),
                job_views(out@) == jobs_for(self@.subrange(0, i as int), channel_id),
            decreases self.jobs.len() - i,
        {
            let ghost prefix = self@.subrange(0, i + 1);
            assert(prefix.drop_last() =~= self@.subrange(0, i as int));
            assert(prefix.last() == self.jobs@[i as int]@);
            let keep = match channel_id {
                None => true,
                Some(c) => self.jobs[i].channel_id == c,
            };
            if keep {
                let ghost before = out@;
                let job = self.jobs[i].copy();
                out.push(job);
                assert(job_views(out@) =~= job_views(before).push(self.jobs@[i as int]@));
            }
            i += 1;
        }
        assert(self@.subrange(0, self@.len() as int) =~= self@);
        out
    }

    /// The durable records of all jobs, in order: one for each live job.
    pub fn stored(&self) -> (r: Vec<StoredJob>)
        ensures
            stored_views(r@) == stored_list(self@),
            r@.len() == self@.len(),
    {
        let mut out: Vec<StoredJob> = Vec::new();
        let mut i: usize = 0;
        while i < self.jobs.len()
            invariant
                i <= self.jobs@.len(),
                self@.len() == self.jobs@.len(),
                stored_views(out@) =~= stored_list(self@.subrange(0, i as int)),
            decreases self.jobs.len() - i,
        {
            let ghost before = out@;
            out.push(StoredJob::from(&self.jobs[i]));
            assert(stored_views(out@) =~= stored_views(before).push(stored_of(self@[i as int])));
            assert(stored_list(self@.subrange(0, i + 1)) =~= stored_list(
                self@.subrange(0, i as int),
            ).push(stored_of(self@[i as int])));
            i += 1;
        }
        assert(self@.subrange(0, self@.len() as int) =~= self@);
        out
    }

    /// Removes the job whose identifier `text` spells.
    pub fn remove_by_text(&mut self, text: &str) -> (r: Result<(), ScheduleError>)
        requires
            old(self).wf(),
        ensures
            final(self).wf(),
            uuid_of_text(text@) is None ==> r == Err::<(), ScheduleError>(ScheduleError::InvalidId)
                && final(self)@ == old(self)@,
            uuid_of_text(text@) is Some ==> (r is Err <==> !has_id(
                old(self)@,
                uuid_of_text(text@)->0,
            )),
            uuid_of_text(text@) is Some && r is Err ==> r == Err::<(), ScheduleError>(
                ScheduleError::NotFound,
            ) && final(self)@ == old(self)@,
            uuid_of_text(text@) is Some && r is Ok ==> exists|i: int|
                0 <= i < old(self)@.len() && old(self)@[i].uuid == uuid_of_text(text@)->0
                    && final(self)@ == old(self)@.remove(i),
    {
        match parse_job_id(text) {
            None => Err(ScheduleError::InvalidId),
            Some(id) => self.remove(id),
        }
    }

    /// The listing of the jobs that target `channel_id`: one line per job, in order, or a
    /// notice where there are none.
    pub fn listing(&self, channel_id: u64) -> (r: String)
        ensures
            r@ == listing_text(self@, channel_id),
    {
        let jobs = self.list(Some(channel_id));
        if jobs.len() == 0 {
            return NO_JOBS.to_owned();
        }
        let mut text = String::new();
        let mut i: usize = 0;
        while i < jobs.len()
            invariant
                i <= jobs@.len(),
                job_views(jobs@) == jobs_for(self@, Some(channel_id)),
                text@ == joined_lines(job_views(jobs@).subrange(0, i as int)),
            decreases jobs.len() - i,
        {
            let ghost prefix = job_views(jobs@).subrange(0, i + 1);
            assert(prefix.drop_last() =~= job_views(jobs@).subrange(0, i as int));
            assert(prefix.last() == jobs@[i as int]@);
            if i > 0 {
                text.append("\n");
            } else {
                assert(text@ =~= Seq::<char>::empty());
            }
            text.append("`");
            let id = job_id_text(jobs[i].uuid);
            text.append(id.as_str());
            text.append("` - `");
            text.append(jobs[i].cron.as_str());
            text.append("`");
            proof {
                if i == 0 {
                    assert(prefix.len() == 1);
                    assert(prefix[0] == jobs@[0]@);
                }
            }
            assert(text@ =~= joined_lines(prefix));
            i += 1;
        }
        assert(job_views(jobs@).subrange(0, jobs@.len() as int) =~= job_views(jobs@));
        text
    }
}

} // verus!
