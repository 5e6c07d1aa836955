//! Bounded, serialized uploads. History survives restart; file bodies never do.
use vstd::prelude::*;
use crate::net::IpAddress;
use crate::machine::{copy_opt, MachineError, MachineIdentity, UploadReceipt};
use crate::error::{ApiError, api_code, api_message};
use vstd::string::*;
use crate::text::{text_eq, opt_text, opt_text_eq};

verus! {

/// Where a transfer stands.
#[derive(Clone, Copy, PartialEq, Eq, Structural, Debug)]
pub enum JobState {
    Queued,
    Waiting,
    Uploading,
    Done,
    Failed,
    Cancelled,
    NeedsReconciliation,
}

impl JobState {
    /// Still to be uploaded, or being uploaded.
    pub open spec fn is_pending(self) -> bool {
        self == JobState::Queued || self == JobState::Waiting || self == JobState::Uploading
    }

    /// Over, with a known outcome.
    pub open spec fn is_finished(self) -> bool {
        self == JobState::Done || self == JobState::Failed || self == JobState::Cancelled
    }

    /// Whether the transfer is queued, waiting or uploading.
    pub fn pending(self) -> (r: bool)
        ensures
            r == self.is_pending(),
    {
        matches!(self, JobState::Queued | JobState::Waiting | JobState::Uploading)
    }

    /// Whether the transfer is done, failed or cancelled.
    pub fn finished(self) -> (r: bool)
        ensures
            r == self.is_finished(),
    {
        matches!(self, JobState::Done | JobState::Failed | JobState::Cancelled)
    }
}

/// The durable record of one transfer.
#[derive(Debug)]
pub struct JobRecord {
    pub id: String,
    pub filename: String,
    pub ip: IpAddress,
    pub state: JobState,
    pub sent_bytes: u64,
    pub total_bytes: u64,
    pub stored_as: Option<String>,
    pub error_code: Option<String>,
    pub error: Option<String>,
    pub created_at_ms: u64,
    pub finished_at_ms: Option<u64>,
    pub manufacturer: Option<String>,
    pub serial: Option<String>,
}

/// A transfer record with its texts as character sequences.
pub struct JobRecordView {
    pub id: Seq<char>,
    pub filename: Seq<char>,
    pub ip: IpAddress,
    pub state: JobState,
    pub sent_bytes: u64,
    pub total_bytes: u64,
    pub stored_as: Option<Seq<char>>,
    pub error_code: Option<Seq<char>>,
    pub error: Option<Seq<char>>,
    pub created_at_ms: u64,
    pub finished_at_ms: Option<u64>,
    pub manufacturer: Option<Seq<char>>,
    pub serial: Option<Seq<char>>,
}

impl View for JobRecord {
    type V = JobRecordView;

    open spec fn view(&self) -> JobRecordView {
        JobRecordView {
            id: self.id@,
            filename: self.filename@,
            ip: self.ip,
            state: self.state,
            sent_bytes: self.sent_bytes,
            total_bytes: self.total_bytes,
            stored_as: opt_text(self.stored_as),
            error_code: opt_text(self.error_code),
            error: opt_text(self.error),
            created_at_ms: self.created_at_ms,
            finished_at_ms: self.finished_at_ms,
            manufacturer: opt_text(self.manufacturer),
            serial: opt_text(self.serial),
        }
    }
}

impl Clone for JobRecord {
    fn clone(&self) -> (r: Self)
        ensures
            r == *self,
    {
        JobRecord {
            id: self.id.clone(),
            filename: self.filename.clone(),
            ip: self.ip,
            state: self.state,
            sent_bytes: self.sent_bytes,
            total_bytes: self.total_bytes,
            stored_as: copy_opt(&self.stored_as),
            error_code: copy_opt(&self.error_code),
            error: copy_opt(&self.error),
            created_at_ms: self.created_at_ms,
            finished_at_ms: self.finished_at_ms,
            manufacturer: copy_opt(&self.manufacturer),
            serial: copy_opt(&self.serial),
        }
    }
}

/// The records of a list, as views.
pub open spec fn views(v: Seq<JobRecord>) -> Seq<JobRecordView> {
    v.map_values(|r: JobRecord| r@)
}

/// How many records are finished.
pub open spec fn count_finished(s: Seq<JobRecordView>) -> nat
    decreases s.len(),
{
    if s.len() == 0 {
        0
    } else {
        (if s[0].state.is_finished() {
            1nat
        } else {
            0nat
        }) + count_finished(s.drop_first())
    }
}

/// How many records are not finished: pending, or awaiting reconciliation.
pub open spec fn count_unfinished(s: Seq<JobRecordView>) -> nat
    decreases s.len(),
{
    if s.len() == 0 {
        0
    } else {
        (if !s[0].state.is_finished() {
            1nat
        } else {
            0nat
        }) + count_unfinished(s.drop_first())
    }
}

/// How many records are pending.
pub open spec fn count_pending(s: Seq<JobRecordView>) -> nat
    decreases s.len(),
{
    if s.len() == 0 {
        0
    } else {
        (if s[0].state.is_pending() {
            1nat
        } else {
            0nat
        }) + count_pending(s.drop_first())
    }
}

/// The records that are not finished, in order.
pub open spec fn unfinished_records(s: Seq<JobRecordView>) -> Seq<JobRecordView>
    decreases s.len(),
{
    if s.len() == 0 {
        s
    } else if !s[0].state.is_finished() {
        seq![s[0]] + unfinished_records(s.drop_first())
    } else {
        unfinished_records(s.drop_first())
    }
}

/// The records with the first `k` finished ones left out.
pub open spec fn drop_finished(s: Seq<JobRecordView>, k: nat) -> Seq<JobRecordView>
    decreases s.len(),
{
    if s.len() == 0 {
        s
    } else if k > 0 && s[0].state.is_finished() {
        drop_finished(s.drop_first(), (k - 1) as nat)
    } else {
        seq![s[0]] + drop_finished(s.drop_first(), k)
    }
}

/// The most finished records that the history keeps.
pub const KEPT_FINISHED: usize = 100;

/// The history with the oldest finished records left out, so that at most
/// [`KEPT_FINISHED`] finished records remain.
pub open spec fn pruned(s: Seq<JobRecordView>) -> Seq<JobRecordView> {
    if count_finished(s) > KEPT_FINISHED {
        drop_finished(s, (count_finished(s) - KEPT_FINISHED) as nat)
    } else {
        s
    }
}

proof fn lemma_drop_finished_counts(s: Seq<JobRecordView>, k: nat)
    requires
        k <= count_finished(s),
    ensures
        count_finished(drop_finished(s, k)) == count_finished(s) - k,
        unfinished_records(drop_finished(s, k)) == unfinished_records(s),
        count_pending(drop_finished(s, k)) == count_pending(s),
        count_unfinished(drop_finished(s, k)) == count_unfinished(s),
    decreases s.len(),
{
    if s.len() > 0 {
        let rest = s.drop_first();
        if k > 0 && s[0].state.is_finished() {
            lemma_drop_finished_counts(rest, (k - 1) as nat);
        } else {
            lemma_drop_finished_counts(rest, k);
            let d = drop_finished(rest, k);
            let t = seq![s[0]] + d;
            assert(t[0] == s[0]);
            assert(t.drop_first() =~= d);
        }
    }
}

proof fn lemma_counts_push(s: Seq<JobRecordView>, x: JobRecordView)
    ensures
        count_finished(s.push(x)) == count_finished(s) + (if x.state.is_finished() {
            1nat
        } else {
            0nat
        }),
        count_unfinished(s.push(x)) == count_unfinished(s) + (if x.state.is_finished() {
            0nat
        } else {
            1nat
        }),
        count_pending(s.push(x)) == count_pending(s) + (if x.state.is_pending() {
            1nat
        } else {
            0nat
        }),
    decreases s.len(),
{
    if s.len() > 0 {
        lemma_counts_push(s.drop_first(), x);
        assert(s.push(x).drop_first() =~= s.drop_first().push(x));
    } else {
        assert(s.push(x).drop_first() =~= s);
    }
}

proof fn lemma_counts_update(s: Seq<JobRecordView>, i: int, x: JobRecordView)
    requires
        0 <= i < s.len(),
    ensures
        s[i].state.is_finished() == x.state.is_finished() ==> count_finished(s.update(i, x))
            == count_finished(s),
        s[i].state.is_finished() == x.state.is_finished() ==> count_unfinished(s.update(i, x))
            == count_unfinished(s),
        s[i].state.is_pending() == x.state.is_pending() ==> count_pending(s.update(i, x))
            == count_pending(s),
    decreases s.len(),
{
    if i > 0 {
        lemma_counts_update(s.drop_first(), i - 1, x);
        assert(s.update(i, x).drop_first() =~= s.drop_first().update(i - 1, x));
    } else {
        assert(s.update(i, x).drop_first() =~= s.drop_first());
    }
}

/// Pruning keeps every unfinished record, in order, and at most
/// [`KEPT_FINISHED`] finished ones: all of them where there were no more.
pub proof fn lemma_pruned(s: Seq<JobRecordView>)
    ensures
        count_finished(pruned(s)) == if count_finished(s) > KEPT_FINISHED {
            KEPT_FINISHED as nat
        } else {
            count_finished(s)
        },
        unfinished_records(pruned(s)) == unfinished_records(s),
        count_pending(pruned(s)) == count_pending(s),
        count_unfinished(pruned(s)) == count_unfinished(s),
        count_finished(s) <= KEPT_FINISHED ==> pruned(s) == s,
{
    if count_finished(s) > KEPT_FINISHED {
        lemma_drop_finished_counts(s, (count_finished(s) - KEPT_FINISHED) as nat);
    }
}

/// Leaves out the oldest finished records beyond the first
/// [`KEPT_FINISHED`].
pub fn prune_finished(records: &mut Vec<JobRecord>)
    ensures
        views(final(records)@) == pruned(views(old(records)@)),
{
    let ghost s = views(records@);
    let n = records.len();
    let mut finished: usize = 0;
    let mut i: usize = 0;
    assert(s.subrange(0, n as int) =~= s);
    while i < n
        invariant
            n == records.len(),
            s == views(records@),
            i <= n,
            finished <= i,
            finished as nat + count_finished(s.subrange(i as int, n as int)) == count_finished(s),
        decreases n - i,
    {
        proof {
            let t = s.subrange(i as int, n as int);
            assert(t.drop_first() =~= s.subrange(i + 1, n as int));
        }
        if records[i].state.finished() {
            finished = finished + 1;
        }
        i = i + 1;
    }
    proof {
        assert(s.subrange(n as int, n as int).len() == 0);
    }
    if finished <= KEPT_FINISHED {
        return;
    }
    let ghost k0: nat = (finished - KEPT_FINISHED) as nat;
    let mut excess: usize = finished - KEPT_FINISHED;
    let mut kept: Vec<JobRecord> = Vec::new();
    let mut j: usize = 0;
    assert(s.subrange(0, n as int) =~= s);
    assert(views(kept@) + drop_finished(s, k0) =~= drop_finished(s, k0));
    while j < n
        invariant
            n == records.len(),
            s == views(records@),
            j <= n,
            views(kept@) + drop_finished(s.subrange(j as int, n as int), excess as nat)
                == drop_finished(s, k0),
        decreases n - j,
    {
        let ghost t = s.subrange(j as int, n as int);
        proof {
            assert(t.drop_first() =~= s.subrange(j + 1, n as int));
            assert(t[0] == records@[j as int]@);
        }
        if excess > 0 && records[j].state.finished() {
            excess = excess - 1;
        } else {
            let ghost before = views(kept@);
            kept.push(records[j].clone());
            proof {
                let rest = drop_finished(s.subrange(j + 1, n as int), excess as nat);
                assert(views(kept@) =~= before.push(t[0]));
                assert(before + (seq![t[0]] + rest) =~= before.push(t[0]) + rest);
            }
        }
        j = j + 1;
    }
    proof {
        assert(s.subrange(n as int, n as int) =~= Seq::<JobRecordView>::empty());
        assert(views(kept@) + Seq::<JobRecordView>::empty() =~= views(kept@));
        assert(s.subrange(0, n as int) =~= s);
    }
    *records = kept;
}

/// How many uploads may wait to be picked up by the worker.
pub const QUEUE_CAPACITY: usize = 32;

/// How many bytes of file bodies may be held for uploads at once.
pub const MAX_BYTES: u64 = 128 * 1024 * 1024;

/// How many unfinished transfers the history admits.
pub const MAX_UNFINISHED: usize = 128;

/// The record the history holds after `r` was interrupted by a restart:
/// an interrupted upload awaits reconciliation, other pending transfers
/// have failed.
pub open spec fn interrupted(r: JobRecordView, now: u64) -> JobRecordView {
    if r.state.is_pending() {
        JobRecordView {
            state: if r.state == JobState::Uploading {
                JobState::NeedsReconciliation
            } else {
                JobState::Failed
            },
            error_code: Some("interrupted"@),
            error: Some(
                "Bridge stopped before this transfer finished. Check the device before sending again."@,
            ),
            finished_at_ms: Some(now),
            ..r
        }
    } else {
        r
    }
}

/// The history as it stands after a restart at time `now`.
pub open spec fn restored(s: Seq<JobRecordView>, now: u64) -> Seq<JobRecordView> {
    pruned(s.map_values(|r: JobRecordView| interrupted(r, now)))
}

/// `i` is the first position of a record with this id.
pub open spec fn is_first_with_id(s: Seq<JobRecordView>, id: Seq<char>, i: int) -> bool {
    &&& 0 <= i < s.len()
    &&& s[i].id == id
    &&& forall|j: int| 0 <= j < i ==> #[trigger] s[j].id != id
}

/// The position of the first record with this id, if any.
pub open spec fn find_id(s: Seq<JobRecordView>, id: Seq<char>) -> Option<int> {
    if exists|i: int| is_first_with_id(s, id, i) {
        Some(choose|i: int| is_first_with_id(s, id, i))
    } else {
        None
    }
}

proof fn lemma_find_id(s: Seq<JobRecordView>, id: Seq<char>, i: int)
    requires
        is_first_with_id(s, id, i),
    ensures
        find_id(s, id) == Some(i),
{
    let j = choose|j: int| is_first_with_id(s, id, j);
    assert(is_first_with_id(s, id, j));
    if j < i {
        assert(s[j].id != id);
    } else if i < j {
        assert(s[i].id != id);
    }
}

proof fn lemma_find_none(s: Seq<JobRecordView>, id: Seq<char>)
    requires
        forall|j: int| 0 <= j < s.len() ==> #[trigger] s[j].id != id,
    ensures
        find_id(s, id) is None,
{
}

/// What changing the record with id `id` by `f` makes of the history and
/// returns: the changed record on success, after which the history is
/// pruned; the history unchanged on an error.
pub open spec fn change_outcome(
    s: Seq<JobRecordView>,
    id: Seq<char>,
    f: spec_fn(JobRecordView) -> Result<JobRecordView, ApiError>,
) -> (Seq<JobRecordView>, Result<JobRecordView, ApiError>) {
    match find_id(s, id) {
        None => (s, Err(ApiError::NotFound)),
        Some(i) => match f(s[i]) {
            Ok(n) => (pruned(s.update(i, n)), Ok(n)),
            Err(e) => (s, Err(e)),
        },
    }
}

pub open spec fn cancel_outcome(s: Seq<JobRecordView>, id: Seq<char>, now: u64) -> (Seq<JobRecordView>, Result<JobRecordView, ApiError>) {
    change_outcome(s, id, |x: JobRecordView| cancel_step(x, now))
}

pub open spec fn confirm_outcome(s: Seq<JobRecordView>, id: Seq<char>, delivered: bool, now: u64) -> (Seq<JobRecordView>, Result<JobRecordView, ApiError>) {
    change_outcome(s, id, |x: JobRecordView| confirm_step(x, delivered, now))
}

pub open spec fn complete_outcome(s: Seq<JobRecordView>, id: Seq<char>, receipt: UploadReceipt, now: u64) -> (Seq<JobRecordView>, Result<JobRecordView, ApiError>) {
    change_outcome(s, id, |x: JobRecordView| complete_step(x, receipt, now))
}

pub open spec fn fail_outcome(s: Seq<JobRecordView>, id: Seq<char>, e: ApiError, now: u64) -> (Seq<JobRecordView>, Result<JobRecordView, ApiError>) {
    change_outcome(s, id, |x: JobRecordView| fail_step(x, e, now))
}

pub open spec fn wait_unless_cancelled_outcome(s: Seq<JobRecordView>, id: Seq<char>) -> (Seq<JobRecordView>, Result<JobRecordView, ApiError>) {
    change_outcome(s, id, |x: JobRecordView| wait_unless_cancelled_step(x))
}

pub open spec fn wait_outcome(s: Seq<JobRecordView>, id: Seq<char>) -> (Seq<JobRecordView>, Result<JobRecordView, ApiError>) {
    change_outcome(s, id, |x: JobRecordView| wait_step(x))
}

pub open spec fn upload_outcome(s: Seq<JobRecordView>, id: Seq<char>, device: MachineIdentity) -> (Seq<JobRecordView>, Result<JobRecordView, ApiError>) {
    change_outcome(s, id, |x: JobRecordView| upload_step(x, device))
}

/// A result with its record as a view.
pub open spec fn result_view(r: Result<JobRecord, ApiError>) -> Result<JobRecordView, ApiError> {
    match r {
        Ok(x) => Ok(x@),
        Err(e) => Err(e),
    }
}

/// Cancelling: only queued or waiting transfers.
pub open spec fn cancel_step(r: JobRecordView, now: u64) -> Result<JobRecordView, ApiError> {
    if r.state == JobState::Queued || r.state == JobState::Waiting {
        Ok(JobRecordView { state: JobState::Cancelled, finished_at_ms: Some(now), ..r })
    } else {
        Err(ApiError::NotCancellable)
    }
}

pub open spec fn confirmation_message(delivered: bool) -> Seq<char> {
    if delivered {
        "Delivery confirmed by user"@
    } else {
        "User checked the device; file was not delivered"@
    }
}

/// Recording the user's check of an uncertain outcome.
pub open spec fn confirm_step(r: JobRecordView, delivered: bool, now: u64) -> Result<
    JobRecordView,
    ApiError,
> {
    if r.state == JobState::NeedsReconciliation {
        Ok(
            JobRecordView {
                state: if delivered {
                    JobState::Done
                } else {
                    JobState::Failed
                },
                error_code: Some("user_confirmed"@),
                error: Some(confirmation_message(delivered)),
                finished_at_ms: Some(now),
                ..r
            },
        )
    } else {
        Err(ApiError::NotUncertain)
    }
}

/// Marking a transfer as waiting for a busy machine, unless it was cancelled.
pub open spec fn wait_unless_cancelled_step(r: JobRecordView) -> Result<JobRecordView, ApiError> {
    if r.state == JobState::Cancelled {
        Ok(r)
    } else {
        Ok(JobRecordView { state: JobState::Waiting, ..r })
    }
}

/// Marking a transfer as waiting for a busy machine.
pub open spec fn wait_step(r: JobRecordView) -> Result<JobRecordView, ApiError> {
    Ok(JobRecordView { state: JobState::Waiting, ..r })
}

/// Committing the start of an upload to the device that was found, unless
/// the transfer was cancelled.
pub open spec fn upload_step(r: JobRecordView, device: MachineIdentity) -> Result<
    JobRecordView,
    ApiError,
> {
    if r.state == JobState::Cancelled {
        Err(ApiError::Cancelled)
    } else {
        Ok(
            JobRecordView {
                state: JobState::Uploading,
                ip: device.ip,
                serial: opt_text(device.serial),
                manufacturer: Some(device.manufacturer@),
                ..r
            },
        )
    }
}

/// Recording a delivered upload.
pub open spec fn complete_step(r: JobRecordView, receipt: UploadReceipt, now: u64) -> Result<
    JobRecordView,
    ApiError,
> {
    Ok(
        JobRecordView {
            state: JobState::Done,
            sent_bytes: receipt.bytes_sent,
            stored_as: opt_text(receipt.stored_as),
            finished_at_ms: Some(now),
            ..r
        },
    )
}

/// The state a transfer takes after a failed attempt: a delivery of unknown
/// outcome awaits reconciliation, every other failure is final.
pub open spec fn failure_state(e: ApiError) -> JobState {
    if e == ApiError::Machine(MachineError::DeliveryUnknown) {
        JobState::NeedsReconciliation
    } else {
        JobState::Failed
    }
}

/// Recording a failed attempt.
pub open spec fn fail_step(r: JobRecordView, e: ApiError, now: u64) -> Result<
    JobRecordView,
    ApiError,
> {
    Ok(
        JobRecordView {
            state: failure_state(e),
            error_code: Some(api_code(e)),
            error: Some(api_message(e)),
            finished_at_ms: Some(now),
            ..r
        },
    )
}

/// The expected manufacturer and serial number, as texts.
pub open spec fn pair_text(p: Option<(String, String)>) -> Option<(Seq<char>, Seq<char>)> {
    match p {
        Some((a, b)) => Some((a@, b@)),
        None => None,
    }
}

/// The record of a newly admitted transfer.
pub open spec fn admitted(
    id: Seq<char>,
    now: u64,
    ip: IpAddress,
    filename: Seq<char>,
    total_bytes: u64,
    expected: Option<(Seq<char>, Seq<char>)>,
) -> JobRecordView {
    JobRecordView {
        id,
        filename,
        ip,
        state: JobState::Queued,
        sent_bytes: 0,
        total_bytes,
        stored_as: None,
        error_code: None,
        error: None,
        created_at_ms: now,
        finished_at_ms: None,
        manufacturer: match expected {
            Some(e) => Some(e.0),
            None => None,
        },
        serial: match expected {
            Some(e) => Some(e.1),
            None => None,
        },
    }
}

/// A transfer of `total_bytes` is admitted when an upload slot is free, its
/// body fits in the byte budget, and fewer than [`MAX_UNFINISHED`] transfers
/// are unfinished.
pub open spec fn admits(
    queued: nat,
    reserved: nat,
    s: Seq<JobRecordView>,
    total_bytes: nat,
) -> bool {
    &&& queued < QUEUE_CAPACITY
    &&& reserved + total_bytes <= MAX_BYTES
    &&& count_unfinished(s) < MAX_UNFINISHED
}

/// A lowercase hexadecimal digit.
pub open spec fn is_hex_digit(c: char) -> bool {
    ('0' <= c && c <= '9') || ('a' <= c && c <= 'f')
}


/// What an upload whose outcome could not be saved is held as.
pub open spec fn fail_closed_record(r: JobRecordView) -> JobRecordView {
    JobRecordView {
        state: JobState::NeedsReconciliation,
        error: Some("Could not save the outcome. Check the device."@),
        ..r
    }
}

/// The record awaits reconciliation and concerns this device: the same
/// serial number and manufacturer, or the same address.
pub open spec fn blocks(r: JobRecordView, device: MachineIdentity) -> bool {
    &&& r.state == JobState::NeedsReconciliation
    &&& {
        ||| (r.serial is Some && r.serial == opt_text(device.serial) && r.manufacturer == Some(
            device.manufacturer@,
        ))
        ||| r.ip == device.ip
    }
}

proof fn lemma_unfinished_contains(s: Seq<JobRecordView>, i: int)
    requires
        0 <= i < s.len(),
        !s[i].state.is_finished(),
    ensures
        unfinished_records(s).contains(s[i]),
    decreases s.len(),
{
    if i > 0 {
        lemma_unfinished_contains(s.drop_first(), i - 1);
        let u = unfinished_records(s.drop_first());
        let k = choose|k: int| 0 <= k < u.len() && u[k] == s[i];
        if !s[0].state.is_finished() {
            assert((seq![s[0]] + u)[k + 1] == s[i]);
        }
    } else {
        assert(unfinished_records(s)[0] == s[0]);
    }
}

proof fn lemma_unfinished_subset(s: Seq<JobRecordView>, x: JobRecordView)
    requires
        unfinished_records(s).contains(x),
    ensures
        s.contains(x),
    decreases s.len(),
{
    if s.len() > 0 {
        let u = unfinished_records(s.drop_first());
        let k = choose|k: int| 0 <= k < unfinished_records(s).len() && unfinished_records(s)[k] == x;
        if !s[0].state.is_finished() {
            if k == 0 {
                assert(s[0] == x);
            } else {
                assert(u[k - 1] == x);
                lemma_unfinished_subset(s.drop_first(), x);
                let j = choose|j: int| 0 <= j < s.drop_first().len() && s.drop_first()[j] == x;
                assert(s[j + 1] == x);
            }
        } else {
            lemma_unfinished_subset(s.drop_first(), x);
            let j = choose|j: int| 0 <= j < s.drop_first().len() && s.drop_first()[j] == x;
            assert(s[j + 1] == x);
        }
    }
}

proof fn lemma_drop_finished_subset(s: Seq<JobRecordView>, k: nat, x: JobRecordView)
    requires
        drop_finished(s, k).contains(x),
    ensures
        s.contains(x),
    decreases s.len(),
{
    if s.len() > 0 {
        let rest = s.drop_first();
        if k > 0 && s[0].state.is_finished() {
            lemma_drop_finished_subset(rest, (k - 1) as nat, x);
        } else {
            let d = drop_finished(rest, k);
            let j = choose|j: int| 0 <= j < (seq![s[0]] + d).len() && (seq![s[0]] + d)[j] == x;
            if j == 0 {
                assert(s[0] == x);
            } else {
                assert(d[j - 1] == x);
                lemma_drop_finished_subset(rest, k, x);
            }
        }
        if rest.contains(x) {
            let j = choose|j: int| 0 <= j < rest.len() && rest[j] == x;
            assert(s[j + 1] == x);
        }
    }
}

/// Every record that pruning keeps was in the history.
pub proof fn lemma_pruned_subset(s: Seq<JobRecordView>, x: JobRecordView)
    requires
        pruned(s).contains(x),
    ensures
        s.contains(x),
{
    if count_finished(s) > KEPT_FINISHED {
        lemma_drop_finished_subset(s, (count_finished(s) - KEPT_FINISHED) as nat, x);
    }
}

proof fn lemma_no_pending(s: Seq<JobRecordView>)
    requires
        forall|i: int| 0 <= i < s.len() ==> !(#[trigger] s[i]).state.is_pending(),
    ensures
        count_pending(s) == 0,
    decreases s.len(),
{
    if s.len() > 0 {
        assert forall|i: int| 0 <= i < s.drop_first().len() implies !(
        #[trigger] s.drop_first()[i]).state.is_pending() by {
            assert(s.drop_first()[i] == s[i + 1]);
        }
        lemma_no_pending(s.drop_first());
    }
}

/// After a restart no transfer is pending, and every upload that was
/// interrupted or already uncertain is kept, awaiting reconciliation: an
/// interrupted upload is never taken for a failure, nor sent again.
pub proof fn lemma_restart(s: Seq<JobRecordView>, now: u64)
    ensures
        count_pending(restored(s, now)) == 0,
        forall|i: int|
            0 <= i < s.len() && (s[i].state == JobState::Uploading || s[i].state
                == JobState::NeedsReconciliation) ==> {
                &&& restored(s, now).contains(#[trigger] interrupted(s[i], now))
                &&& interrupted(s[i], now).state == JobState::NeedsReconciliation
            },
{
    let m = s.map_values(|r: JobRecordView| interrupted(r, now));
    lemma_pruned(m);
    lemma_no_pending(m);
    assert forall|i: int|
        0 <= i < s.len() && (s[i].state == JobState::Uploading || s[i].state
            == JobState::NeedsReconciliation) implies restored(s, now).contains(
        #[trigger] interrupted(s[i], now),
    ) by {
        assert(m[i] == interrupted(s[i], now));
        lemma_unfinished_contains(m, i);
        assert(unfinished_records(pruned(m)).contains(m[i]));
        lemma_unfinished_subset(pruned(m), m[i]);
    }
}

/// No two records share an id.
pub open spec fn ids_unique(s: Seq<JobRecordView>) -> bool {
    forall|i: int, j: int| 0 <= i < s.len() && 0 <= j < s.len() && #[trigger] s[i].id == #[trigger] s[j].id ==> i == j
}

/// Once a transfer was cancelled, no upload of it can start: marking it as
/// uploading is refused, whether its record is still kept or was pruned.
/// Stated where ids are unique, as the queue draws them at random.
pub proof fn lemma_cancelled_never_uploads(
    s: Seq<JobRecordView>,
    id: Seq<char>,
    now: u64,
    device: MachineIdentity,
)
    requires
        ids_unique(s),
        cancel_outcome(s, id, now).1 is Ok,
    ensures
        upload_outcome(cancel_outcome(s, id, now).0, id, device).1 is Err,
{
    let i = find_id(s, id)->0;
    assert(is_first_with_id(s, id, i));
    let c = JobRecordView { state: JobState::Cancelled, finished_at_ms: Some(now), ..s[i] };
    let t = s.update(i, c);
    let p = pruned(t);
    match find_id(p, id) {
        Some(k) => {
            assert(is_first_with_id(p, id, k));
            assert(p.contains(p[k]));
            lemma_pruned_subset(t, p[k]);
            let j = choose|j: int| 0 <= j < t.len() && t[j] == p[k];
            if j != i {
                assert(t[j] == s[j]);
                assert(s[j].id == s[i].id);
            }
        },
        None => {},
    }
}

/// Recording the user's check of an uncertain outcome never makes a transfer
/// pending again: nothing is sent again.
pub proof fn lemma_confirmation_sends_nothing(
    s: Seq<JobRecordView>,
    id: Seq<char>,
    delivered: bool,
    now: u64,
)
    ensures
        count_pending(confirm_outcome(s, id, delivered, now).0) == count_pending(s),
{
    match find_id(s, id) {
        Some(i) => {
            if s[i].state == JobState::NeedsReconciliation {
                assert(is_first_with_id(s, id, i));
                let n = confirm_step(s[i], delivered, now)->Ok_0;
                lemma_counts_update(s, i, n);
                lemma_pruned(s.update(i, n));
            }
        },
        None => {},
    }
}

proof fn lemma_interrupted_counts(s: Seq<JobRecordView>, now: u64)
    ensures
        count_finished(s.map_values(|r: JobRecordView| interrupted(r, now))) <= count_finished(s)
            + count_pending(s),
    decreases s.len(),
{
    if s.len() > 0 {
        let f = |r: JobRecordView| interrupted(r, now);
        lemma_interrupted_counts(s.drop_first(), now);
        assert(s.map_values(f).drop_first() =~= s.drop_first().map_values(f));
        assert(s.map_values(f)[0] == interrupted(s[0], now));
    }
}

/// A settled record (not pending) survives a restart unchanged, where the
/// history held no more finished and pending records together than it keeps
/// finished ones: whatever a cancellation or a confirmation saved is found
/// again after a restart.
pub proof fn lemma_settled_survives_restart(s: Seq<JobRecordView>, now: u64, x: JobRecordView)
    requires
        s.contains(x),
        !x.state.is_pending(),
        count_finished(s) + count_pending(s) <= KEPT_FINISHED,
    ensures
        restored(s, now).contains(x),
{
    let m = s.map_values(|r: JobRecordView| interrupted(r, now));
    lemma_interrupted_counts(s, now);
    lemma_pruned(m);
    let i = choose|i: int| 0 <= i < s.len() && s[i] == x;
    assert(m[i] == interrupted(s[i], now));
    assert(m[i] == x);
}

proof fn lemma_drop_finished_keeps(s: Seq<JobRecordView>, k: nat, i: int)
    requires
        0 <= i < s.len(),
        !s[i].state.is_finished() || count_finished(s.take(i)) >= k,
    ensures
        drop_finished(s, k).contains(s[i]),
    decreases s.len(),
{
    let rest = s.drop_first();
    if i == 0 {
        if !(k > 0 && s[0].state.is_finished()) {
            assert((seq![s[0]] + drop_finished(rest, k))[0] == s[0]);
        } else {
            assert(s.take(0).len() == 0);
        }
    } else {
        assert(s.take(i).drop_first() =~= rest.take(i - 1));
        assert(s.take(i)[0] == s[0]);
        assert(rest[i - 1] == s[i]);
        if k > 0 && s[0].state.is_finished() {
            lemma_drop_finished_keeps(rest, (k - 1) as nat, i - 1);
        } else {
            lemma_drop_finished_keeps(rest, k, i - 1);
            let d = drop_finished(rest, k);
            let j = choose|j: int| 0 <= j < d.len() && d[j] == s[i];
            assert((seq![s[0]] + d)[j + 1] == s[i]);
        }
    }
}

/// How many finished records a restart at `now` prunes.
pub open spec fn restart_excess(s: Seq<JobRecordView>, now: u64) -> nat {
    let m = s.map_values(|r: JobRecordView| interrupted(r, now));
    if count_finished(m) > KEPT_FINISHED {
        (count_finished(m) - KEPT_FINISHED) as nat
    } else {
        0
    }
}

/// A settled record (not pending) comes back unchanged after a restart
/// unless pruning takes it: an uncertain one always does, a finished one
/// whenever at least as many records before it are finished after the
/// restart as the restart prunes. Whatever a cancellation or a confirmation
/// saved is found again unless it is among the oldest finished outcomes
/// beyond the [`KEPT_FINISHED`] kept.
pub proof fn lemma_restart_keeps(s: Seq<JobRecordView>, now: u64, i: int)
    requires
        0 <= i < s.len(),
        !s[i].state.is_pending(),
    ensures
        ({
            let m = s.map_values(|r: JobRecordView| interrupted(r, now));
            !s[i].state.is_finished() || count_finished(m.take(i)) >= restart_excess(s, now)
        }) ==> restored(s, now).contains(s[i]),
{
    let m = s.map_values(|r: JobRecordView| interrupted(r, now));
    assert(m[i] == s[i]);
    if !s[i].state.is_finished() || count_finished(m.take(i)) >= restart_excess(s, now) {
        if count_finished(m) > KEPT_FINISHED {
            lemma_drop_finished_keeps(m, restart_excess(s, now), i);
        } else {
            assert(m.contains(m[i]));
        }
    }
}

/// A failed attempt is recorded as awaiting reconciliation exactly when its
/// delivery is unknown; every other failure is final. The record is found
/// by id, and nothing but its outcome fields changes.
pub proof fn lemma_failure_recorded(s: Seq<JobRecordView>, id: Seq<char>, e: ApiError, now: u64)
    ensures
        ({
            let (t, r) = fail_outcome(s, id, e, now);
            &&& (r is Ok <==> find_id(s, id) is Some)
            &&& r is Ok ==> {
                let x = r->Ok_0;
                let old = s[find_id(s, id)->0];
                &&& (x.state == JobState::NeedsReconciliation <==> e == ApiError::Machine(
                    MachineError::DeliveryUnknown,
                ))
                &&& (x.state == JobState::Failed <==> e != ApiError::Machine(
                    MachineError::DeliveryUnknown,
                ))
                &&& x.error_code == Some(api_code(e))
                &&& x.finished_at_ms == Some(now)
                &&& x.id == old.id && x.filename == old.filename && x.ip == old.ip
            }
            &&& r is Err ==> t == s && r == Err::<JobRecordView, ApiError>(ApiError::NotFound)
        }),
{
}

/// Only a record awaiting reconciliation blocks a device: a done, failed,
/// cancelled or pending transfer never does. One awaiting reconciliation at
/// the device's address always does.
pub proof fn lemma_only_uncertain_blocks(r: JobRecordView, device: MachineIdentity)
    ensures
        r.state != JobState::NeedsReconciliation ==> !blocks(r, device),
        r.state == JobState::NeedsReconciliation && r.ip == device.ip ==> blocks(r, device),
        blocks(r, device) ==> r.ip == device.ip || (r.serial is Some && r.serial == opt_text(
            device.serial,
        )),
{
}

/// A history with no record awaiting reconciliation blocks no device.
pub proof fn lemma_settled_history_blocks_nothing(s: Seq<JobRecordView>, device: MachineIdentity)
    requires
        forall|i: int| 0 <= i < s.len() ==> (#[trigger] s[i]).state != JobState::NeedsReconciliation,
    ensures
        !(exists|i: int| 0 <= i < s.len() && blocks(#[trigger] s[i], device)),
{
}

/// Cancelling succeeds only on a queued or waiting transfer, and then marks
/// it cancelled at `now`; on any other state it is refused as not
/// cancellable and the history stays as it was.
pub proof fn lemma_cancel_only_queued_or_waiting(s: Seq<JobRecordView>, id: Seq<char>, now: u64)
    ensures
        ({
            let (t, r) = cancel_outcome(s, id, now);
            &&& r is Ok ==> {
                &&& find_id(s, id) is Some
                &&& (s[find_id(s, id)->0].state == JobState::Queued || s[find_id(s, id)->0].state
                    == JobState::Waiting)
                &&& r->Ok_0.state == JobState::Cancelled
                &&& r->Ok_0.finished_at_ms == Some(now)
                &&& r->Ok_0.id == s[find_id(s, id)->0].id
            }
            &&& (find_id(s, id) is Some && s[find_id(s, id)->0].state != JobState::Queued && s[find_id(
                s,
                id,
            )->0].state != JobState::Waiting) ==> {
                &&& r == Err::<JobRecordView, ApiError>(ApiError::NotCancellable)
                &&& t == s
            }
            &&& find_id(s, id) is None ==> r == Err::<JobRecordView, ApiError>(ApiError::NotFound)
                && t == s
        }),
{
}

/// Reads the system clock (`std::time::SystemTime::now`), measured from the
/// Unix epoch with `duration_since`, in milliseconds; `None` for a clock set
/// before the epoch. Nothing is claimed of the value: it depends on the time.
#[verifier::external_body]
fn epoch_millis() -> Option<u128> {
    match std::time::SystemTime::now().duration_since(std::time::UNIX_EPOCH) {
        Ok(elapsed) => Some(elapsed.as_millis()),
        Err(_) => None,
    }
}

/// Milliseconds since the Unix epoch from a clock reading: 0 for a clock
/// before the epoch, the value truncated to 64 bits otherwise.
pub fn millis_from_reading(reading: Option<u128>) -> (r: u64)
    ensures
        r == match reading {
            Some(ms) => ms as u64,
            None => 0,
        },
{
    match reading {
        Some(ms) => ms as u64,
        None => 0,
    }
}

/// The present time in milliseconds since the Unix epoch; see
/// [`millis_from_reading`].
pub(crate) fn now_ms() -> u64 {
    millis_from_reading(epoch_millis())
}

/// Draws a random identifier with `rand::random::<u128>` and writes it as 32
/// lowercase hexadecimal digits (`format!("{:032x}")`). The contract claims
/// only the shape of the text; its value rests on chance.
#[verifier::external_body]
fn random_id() -> (r: String)
    ensures
        r@.len() == 32,
        forall|i: int| 0 <= i < 32 ==> is_hex_digit(#[trigger] r@[i]),
{
    format!("{:032x}", rand::random::<u128>())
}

/// The bytes of file body that an admitted transfer holds until the worker
/// is done with it.
#[derive(Debug)]
pub struct Reservation {
    pub id: String,
    pub bytes: u64,
}

impl Clone for Reservation {
    fn clone(&self) -> (r: Self)
        ensures
            r == *self,
    {
        Reservation { id: self.id.clone(), bytes: self.bytes }
    }
}

/// The reservations as (transfer id, bytes) pairs.
pub open spec fn reservation_views(v: Seq<Reservation>) -> Seq<(Seq<char>, u64)> {
    v.map_values(|r: Reservation| (r.id@, r.bytes))
}

/// The bytes all reservations hold together.
pub open spec fn reserved_total(s: Seq<(Seq<char>, u64)>) -> nat
    decreases s.len(),
{
    if s.len() == 0 {
        0
    } else {
        (s[0].1 + reserved_total(s.drop_first())) as nat
    }
}

proof fn lemma_total_push(s: Seq<(Seq<char>, u64)>, x: (Seq<char>, u64))
    ensures
        reserved_total(s.push(x)) == reserved_total(s) + x.1,
    decreases s.len(),
{
    if s.len() > 0 {
        lemma_total_push(s.drop_first(), x);
        assert(s.push(x).drop_first() =~= s.drop_first().push(x));
    } else {
        assert(s.push(x).drop_first() =~= s);
    }
}

proof fn lemma_total_remove(s: Seq<(Seq<char>, u64)>, i: int)
    requires
        0 <= i < s.len(),
    ensures
        reserved_total(s.remove(i)) + s[i].1 == reserved_total(s),
    decreases s.len(),
{
    if i > 0 {
        lemma_total_remove(s.drop_first(), i - 1);
        assert(s.remove(i).drop_first() =~= s.drop_first().remove(i - 1));
        assert(s.remove(i)[0] == s[0]);
    } else {
        assert(s.remove(0) =~= s.drop_first());
    }
}

/// The first reservation of the transfer `id`, if any.
pub open spec fn find_reservation(s: Seq<(Seq<char>, u64)>, id: Seq<char>) -> Option<int> {
    if exists|i: int| 0 <= i < s.len() && s[i].0 == id && forall|j: int| 0 <= j < i ==> #[trigger] s[j].0 != id {
        Some(choose|i: int| 0 <= i < s.len() && s[i].0 == id && forall|j: int| 0 <= j < i ==> #[trigger] s[j].0 != id)
    } else {
        None
    }
}

/// No two reservations are for the same transfer.
pub open spec fn reservation_ids_unique(s: Seq<(Seq<char>, u64)>) -> bool {
    forall|i: int, j: int| 0 <= i < s.len() && 0 <= j < s.len() && #[trigger] s[i].0 == #[trigger] s[j].0 ==> i == j
}

/// Where each transfer holds one reservation, releasing it leaves none for
/// that transfer: its bytes are released once only.
pub proof fn lemma_released_once(s: Seq<(Seq<char>, u64)>, id: Seq<char>, i: int)
    requires
        reservation_ids_unique(s),
        find_reservation(s, id) == Some(i),
    ensures
        find_reservation(s.remove(i), id) is None,
        reserved_total(s.remove(i)) + s[i].1 == reserved_total(s),
{
    assert(s[i].0 == id);
    assert forall|j: int| 0 <= j < s.remove(i).len() implies #[trigger] s.remove(i)[j].0 != id by {
        if j < i {
            assert(s.remove(i)[j] == s[j]);
        } else {
            assert(s.remove(i)[j] == s[j + 1]);
        }
    }
    lemma_total_remove(s, i);
}

/// The transfer history together with the accounting of uploads handed to
/// the worker: how many wait to be picked up, and the bytes of file body
/// each admitted transfer holds until the worker is done with it.
#[derive(Clone, Debug)]
pub struct JobQueue {
    records: Vec<JobRecord>,
    queued_uploads: usize,
    reserved_bytes: u64,
    reservations: Vec<Reservation>,
}

impl View for JobQueue {
    type V = Seq<JobRecordView>;

    closed spec fn view(&self) -> Seq<JobRecordView> {
        views(self.records@)
    }
}

impl JobQueue {
    /// Uploads admitted and not yet picked up by the worker.
    pub closed spec fn queued_uploads(&self) -> nat {
        self.queued_uploads as nat
    }

    /// Bytes held by uploads not yet released.
    pub closed spec fn reserved_bytes(&self) -> nat {
        self.reserved_bytes as nat
    }

    /// The bytes each admitted transfer holds, oldest first.
    pub closed spec fn reservations(&self) -> Seq<(Seq<char>, u64)> {
        reservation_views(self.reservations@)
    }

    /// The history keeps at most [`KEPT_FINISHED`] finished records, and the
    /// upload accounting stays within its bounds.
    pub closed spec fn well_formed(&self) -> bool {
        &&& count_finished(views(self.records@)) <= KEPT_FINISHED
        &&& self.queued_uploads <= QUEUE_CAPACITY
        &&& self.reserved_bytes <= MAX_BYTES
        &&& self.reserved_bytes == reserved_total(reservation_views(self.reservations@))
    }

    /// Facts of a well-formed queue.
    pub proof fn lemma_well_formed(&self)
        requires
            self.well_formed(),
        ensures
            count_finished(self@) <= KEPT_FINISHED,
            self.queued_uploads() <= QUEUE_CAPACITY,
            self.reserved_bytes() <= MAX_BYTES,
            self.reserved_bytes() == reserved_total(self.reservations()),
    {
    }

    /// A queue with no history and no uploads.
    pub fn new() -> (q: JobQueue)
        ensures
            q.well_formed(),
            q@ == Seq::<JobRecordView>::empty(),
            q.queued_uploads() == 0,
            q.reserved_bytes() == 0,
            q.reservations() == Seq::<(Seq<char>, u64)>::empty(),
    {
        let q = JobQueue {
            records: Vec::new(),
            queued_uploads: 0,
            reserved_bytes: 0,
            reservations: Vec::new(),
        };
        assert(reservation_views(q.reservations@) =~= Seq::<(Seq<char>, u64)>::empty());
        assert(views(q.records@) =~= Seq::<JobRecordView>::empty());
        q
    }

    /// Restores the history read back after a restart at time `now`: pending
    /// transfers are marked interrupted (see [`interrupted`]) and the oldest
    /// finished records are pruned. No upload is outstanding.
    pub fn load_at(records: Vec<JobRecord>, now: u64) -> (q: JobQueue)
        ensures
            q.well_formed(),
            q@ == restored(views(records@), now),
            q.queued_uploads() == 0,
            q.reserved_bytes() == 0,
            q.reservations() == Seq::<(Seq<char>, u64)>::empty(),
    {
        let ghost s = views(records@);
        let mut records = records;
        let n = records.len();
        let mut i: usize = 0;
        let interrupted_code = String::from_str("interrupted");
        let interrupted_text = String::from_str(
            "Bridge stopped before this transfer finished. Check the device before sending again.",
        );
        while i < n
            invariant
                n == records.len(),
                s.len() == n,
                i <= n,
                interrupted_code@ == "interrupted"@,
                interrupted_text@
                    == "Bridge stopped before this transfer finished. Check the device before sending again."@,
                forall|j: int| 0 <= j < i ==> #[trigger] records@[j]@ == interrupted(s[j], now),
                forall|j: int| i <= j < n ==> #[trigger] records@[j]@ == s[j],
            decreases n - i,
        {
            assert(records@[i as int]@ == s[i as int]);
            if records[i].state.pending() {
                let mut r = records[i].clone();
                r.state = if r.state == JobState::Uploading {
                    JobState::NeedsReconciliation
                } else {
                    JobState::Failed
                };
                r.error_code = Some(interrupted_code.clone());
                r.error = Some(interrupted_text.clone());
                r.finished_at_ms = Some(now);
                assert(r@ == interrupted(s[i as int], now));
                records.set(i, r);
            }
            assert(records@[i as int]@ == interrupted(s[i as int], now));
            i = i + 1;
        }
        proof {
            assert(views(records@) =~= s.map_values(|r: JobRecordView| interrupted(r, now)));
        }
        prune_finished(&mut records);
        proof {
            lemma_pruned(s.map_values(|r: JobRecordView| interrupted(r, now)));
        }
        let q = JobQueue { records, queued_uploads: 0, reserved_bytes: 0, reservations: Vec::new() };
        assert(reservation_views(q.reservations@) =~= Seq::<(Seq<char>, u64)>::empty());
        q
    }

    /// Restores the history read back after a restart, at the present time;
    /// see [`JobQueue::load_at`].
    pub fn load(records: Vec<JobRecord>) -> (q: JobQueue)
        ensures
            q.well_formed(),
            exists|now: u64| q@ == restored(views(records@), now),
            q.queued_uploads() == 0,
            q.reserved_bytes() == 0,
            q.reservations() == Seq::<(Seq<char>, u64)>::empty(),
    {
        let now = now_ms();
        JobQueue::load_at(records, now)
    }

    /// The records, oldest first, as they are to be saved.
    pub fn records(&self) -> (r: &Vec<JobRecord>)
        ensures
            views(r@) == self@,
    {
        &self.records
    }

    /// The position of the first record with this id.
    fn position(&self, id: &str) -> (r: Option<usize>)
        ensures
            match r {
                Some(i) => find_id(self@, id@) == Some(i as int) && i < self.records@.len(),
                None => find_id(self@, id@) is None,
            },
    {
        let n = self.records.len();
        let mut i: usize = 0;
        while i < n
            invariant
                n == self.records@.len(),
                i <= n,
                forall|j: int| 0 <= j < i ==> #[trigger] self@[j].id != id@,
            decreases n - i,
        {
            if text_eq(self.records[i].id.as_str(), id) {
                proof {
                    lemma_find_id(self@, id@, i as int);
                }
                return Some(i);
            }
            i = i + 1;
        }
        proof {
            lemma_find_none(self@, id@);
        }
        None
    }

    /// A copy of the first record with this id.
    pub fn get(&self, id: &str) -> (r: Option<JobRecord>)
        ensures
            match r {
                Some(x) => find_id(self@, id@) matches Some(i) && x@ == self@[i],
                None => find_id(self@, id@) is None,
            },
    {
        match self.position(id) {
            Some(i) => Some(self.records[i].clone()),
            None => None,
        }
    }

    /// Copies of all records, newest first.
    pub fn list(&self) -> (r: Vec<JobRecord>)
        ensures
            views(r@) == self@.reverse(),
    {
        let n = self.records.len();
        let mut out: Vec<JobRecord> = Vec::new();
        let mut i: usize = n;
        while i > 0
            invariant
                n == self.records@.len(),
                i <= n,
                out@.len() == n - i,
                forall|j: int| 0 <= j < n - i ==> #[trigger] out@[j]@ == self@[n - 1 - j],
            decreases i,
        {
            i = i - 1;
            out.push(self.records[i].clone());
        }
        assert(views(out@) =~= self@.reverse());
        out
    }

    /// How many transfers are queued, waiting or uploading.
    pub fn pending_count(&self) -> (r: usize)
        ensures
            r == count_pending(self@),
    {
        let ghost s = self@;
        let n = self.records.len();
        let mut c: usize = 0;
        let mut i: usize = 0;
        assert(s.subrange(0, n as int) =~= s);
        while i < n
            invariant
                n == self.records@.len(),
                s == self@,
                i <= n,
                c <= i,
                c as nat + count_pending(s.subrange(i as int, n as int)) == count_pending(s),
            decreases n - i,
        {
            proof {
                assert(s.subrange(i as int, n as int).drop_first() =~= s.subrange(i + 1, n as int));
            }
            if self.records[i].state.pending() {
                c = c + 1;
            }
            i = i + 1;
        }
        c
    }

    /// How many transfers are not finished.
    fn unfinished_count(&self) -> (r: usize)
        ensures
            r == count_unfinished(self@),
    {
        let ghost s = self@;
        let n = self.records.len();
        let mut c: usize = 0;
        let mut i: usize = 0;
        assert(s.subrange(0, n as int) =~= s);
        while i < n
            invariant
                n == self.records@.len(),
                s == self@,
                i <= n,
                c <= i,
                c as nat + count_unfinished(s.subrange(i as int, n as int)) == count_unfinished(s),
            decreases n - i,
        {
            proof {
                assert(s.subrange(i as int, n as int).drop_first() =~= s.subrange(i + 1, n as int));
            }
            if !self.records[i].state.finished() {
                c = c + 1;
            }
            i = i + 1;
        }
        c
    }

    /// Cancels the transfer with this id at time `now`: only a queued or
    /// waiting transfer can be cancelled.
    pub fn cancel_at(&mut self, id: &str, now: u64) -> (r: Result<JobRecord, ApiError>)
        requires
            old(self).well_formed(),
        ensures
            final(self).well_formed(),
            (final(self)@, result_view(r)) == cancel_outcome(old(self)@, id@, now),
            final(self).queued_uploads() == old(self).queued_uploads(),
            final(self).reserved_bytes() == old(self).reserved_bytes(),
            final(self).reservations() == old(self).reservations(),
    {
        let i = match self.position(id) {
            Some(i) => i,
            None => return Err(ApiError::NotFound),
        };
        let state = self.records[i].state;
        if !(state == JobState::Queued || state == JobState::Waiting) {
            return Err(ApiError::NotCancellable);
        }
        let mut rec = self.records[i].clone();
        rec.state = JobState::Cancelled;
        rec.finished_at_ms = Some(now);
        let out = rec.clone();
        self.commit(i, rec);
        Ok(out)
    }

    /// Cancels the transfer with this id at the present time; see
    /// [`JobQueue::cancel_at`].
    pub fn cancel(&mut self, id: &str) -> (r: Result<JobRecord, ApiError>)
        requires
            old(self).well_formed(),
        ensures
            final(self).well_formed(),
            exists|now: u64|
                (final(self)@, result_view(r)) == #[trigger] cancel_outcome(old(self)@, id@, now),
            final(self).queued_uploads() == old(self).queued_uploads(),
            final(self).reserved_bytes() == old(self).reserved_bytes(),
            final(self).reservations() == old(self).reservations(),
    {
        let now = now_ms();
        self.cancel_at(id, now)
    }

    /// Records at time `now` the user's check of a transfer whose outcome was
    /// uncertain: done when it was delivered, failed otherwise. Nothing is
    /// sent again.
    pub fn resolve_at(&mut self, id: &str, delivered: bool, now: u64) -> (r: Result<
        JobRecord,
        ApiError,
    >)
        requires
            old(self).well_formed(),
        ensures
            final(self).well_formed(),
            (final(self)@, result_view(r)) == confirm_outcome(old(self)@, id@, delivered, now),
            final(self).queued_uploads() == old(self).queued_uploads(),
            final(self).reserved_bytes() == old(self).reserved_bytes(),
            final(self).reservations() == old(self).reservations(),
    {
        let i = match self.position(id) {
            Some(i) => i,
            None => return Err(ApiError::NotFound),
        };
        if self.records[i].state != JobState::NeedsReconciliation {
            return Err(ApiError::NotUncertain);
        }
        let mut rec = self.records[i].clone();
        rec.state = if delivered {
            JobState::Done
        } else {
            JobState::Failed
        };
        rec.error_code = Some(String::from_str("user_confirmed"));
        rec.error = Some(
            if delivered {
                String::from_str("Delivery confirmed by user")
            } else {
                String::from_str("User checked the device; file was not delivered")
            },
        );
        rec.finished_at_ms = Some(now);
        let out = rec.clone();
        self.commit(i, rec);
        Ok(out)
    }

    /// Records the user's check of an uncertain outcome at the present time;
    /// see [`JobQueue::resolve_at`].
    pub fn resolve(&mut self, id: &str, delivered: bool) -> (r: Result<JobRecord, ApiError>)
        requires
            old(self).well_formed(),
        ensures
            final(self).well_formed(),
            exists|now: u64|
                (final(self)@, result_view(r)) == #[trigger] confirm_outcome(old(self)@, id@, delivered, now),
            final(self).queued_uploads() == old(self).queued_uploads(),
            final(self).reserved_bytes() == old(self).reserved_bytes(),
            final(self).reservations() == old(self).reservations(),
    {
        let now = now_ms();
        self.resolve_at(id, delivered, now)
    }

    /// Marks the transfer as waiting for a busy machine, unless it was
    /// cancelled meanwhile.
    pub fn mark_waiting_unless_cancelled(&mut self, id: &str) -> (r: Result<JobRecord, ApiError>)
        requires
            old(self).well_formed(),
        ensures
            final(self).well_formed(),
            (final(self)@, result_view(r)) == wait_unless_cancelled_outcome(old(self)@, id@),
            final(self).queued_uploads() == old(self).queued_uploads(),
            final(self).reserved_bytes() == old(self).reserved_bytes(),
            final(self).reservations() == old(self).reservations(),
    {
        let i = match self.position(id) {
            Some(i) => i,
            None => return Err(ApiError::NotFound),
        };
        let mut rec = self.records[i].clone();
        if rec.state != JobState::Cancelled {
            rec.state = JobState::Waiting;
        }
        let out = rec.clone();
        self.commit(i, rec);
        Ok(out)
    }

    /// Marks the transfer as waiting for a busy machine.
    pub fn mark_waiting(&mut self, id: &str) -> (r: Result<JobRecord, ApiError>)
        requires
            old(self).well_formed(),
        ensures
            final(self).well_formed(),
            (final(self)@, result_view(r)) == wait_outcome(old(self)@, id@),
            final(self).queued_uploads() == old(self).queued_uploads(),
            final(self).reserved_bytes() == old(self).reserved_bytes(),
            final(self).reservations() == old(self).reservations(),
    {
        let i = match self.position(id) {
            Some(i) => i,
            None => return Err(ApiError::NotFound),
        };
        let mut rec = self.records[i].clone();
        rec.state = JobState::Waiting;
        let out = rec.clone();
        self.commit(i, rec);
        Ok(out)
    }

    /// Commits the start of an upload to `device`, the device that identity
    /// resolution found, unless the transfer was cancelled: cancellation and
    /// the durable uploading marker are decided in one step.
    pub fn mark_uploading(&mut self, id: &str, device: &MachineIdentity) -> (r: Result<
        JobRecord,
        ApiError,
    >)
        requires
            old(self).well_formed(),
        ensures
            final(self).well_formed(),
            (final(self)@, result_view(r)) == upload_outcome(old(self)@, id@, *device),
            final(self).queued_uploads() == old(self).queued_uploads(),
            final(self).reserved_bytes() == old(self).reserved_bytes(),
            final(self).reservations() == old(self).reservations(),
    {
        let i = match self.position(id) {
            Some(i) => i,
            None => return Err(ApiError::NotFound),
        };
        if self.records[i].state == JobState::Cancelled {
            return Err(ApiError::Cancelled);
        }
        let mut rec = self.records[i].clone();
        rec.state = JobState::Uploading;
        rec.ip = device.ip;
        rec.serial = copy_opt(&device.serial);
        rec.manufacturer = Some(device.manufacturer.clone());
        let out = rec.clone();
        self.commit(i, rec);
        Ok(out)
    }

    /// Records at time `now` that the upload was delivered, with what the
    /// machine reported.
    pub fn complete_at(&mut self, id: &str, receipt: &UploadReceipt, now: u64) -> (r: Result<
        JobRecord,
        ApiError,
    >)
        requires
            old(self).well_formed(),
        ensures
            final(self).well_formed(),
            (final(self)@, result_view(r)) == complete_outcome(old(self)@, id@, *receipt, now),
            final(self).queued_uploads() == old(self).queued_uploads(),
            final(self).reserved_bytes() == old(self).reserved_bytes(),
            final(self).reservations() == old(self).reservations(),
    {
        let i = match self.position(id) {
            Some(i) => i,
            None => return Err(ApiError::NotFound),
        };
        let mut rec = self.records[i].clone();
        rec.state = JobState::Done;
        rec.sent_bytes = receipt.bytes_sent;
        rec.stored_as = copy_opt(&receipt.stored_as);
        rec.finished_at_ms = Some(now);
        let out = rec.clone();
        self.commit(i, rec);
        Ok(out)
    }

    /// Records that the upload was delivered, at the present time; see
    /// [`JobQueue::complete_at`].
    pub fn complete(&mut self, id: &str, receipt: &UploadReceipt) -> (r: Result<JobRecord, ApiError>)
        requires
            old(self).well_formed(),
        ensures
            final(self).well_formed(),
            exists|now: u64|
                (final(self)@, result_view(r)) == #[trigger] complete_outcome(old(self)@, id@, *receipt, now),
            final(self).queued_uploads() == old(self).queued_uploads(),
            final(self).reserved_bytes() == old(self).reserved_bytes(),
            final(self).reservations() == old(self).reservations(),
    {
        let now = now_ms();
        self.complete_at(id, receipt, now)
    }

    /// Records at time `now` that an attempt failed with `err`: a delivery of
    /// unknown outcome awaits reconciliation, any other failure is final.
    pub fn fail_at(&mut self, id: &str, err: &ApiError, now: u64) -> (r: Result<
        JobRecord,
        ApiError,
    >)
        requires
            old(self).well_formed(),
        ensures
            final(self).well_formed(),
            (final(self)@, result_view(r)) == fail_outcome(old(self)@, id@, *err, now),
            final(self).queued_uploads() == old(self).queued_uploads(),
            final(self).reserved_bytes() == old(self).reserved_bytes(),
            final(self).reservations() == old(self).reservations(),
    {
        let i = match self.position(id) {
            Some(i) => i,
            None => return Err(ApiError::NotFound),
        };
        let mut rec = self.records[i].clone();
        rec.state = match err {
            ApiError::Machine(MachineError::DeliveryUnknown) => JobState::NeedsReconciliation,
            _ => JobState::Failed,
        };
        rec.error_code = Some(String::from_str(err.code()));
        rec.error = Some(err.message());
        rec.finished_at_ms = Some(now);
        let out = rec.clone();
        self.commit(i, rec);
        Ok(out)
    }

    /// Records that an attempt failed, at the present time; see
    /// [`JobQueue::fail_at`].
    pub fn fail(&mut self, id: &str, err: &ApiError) -> (r: Result<JobRecord, ApiError>)
        requires
            old(self).well_formed(),
        ensures
            final(self).well_formed(),
            exists|now: u64|
                (final(self)@, result_view(r)) == #[trigger] fail_outcome(old(self)@, id@, *err, now),
            final(self).queued_uploads() == old(self).queued_uploads(),
            final(self).reserved_bytes() == old(self).reserved_bytes(),
            final(self).reservations() == old(self).reservations(),
    {
        let now = now_ms();
        self.fail_at(id, err, now)
    }

    /// Where the outcome of an upload could not be saved: an upload still
    /// marked as uploading is held as awaiting reconciliation, in memory.
    pub fn fail_closed(&mut self, id: &str)
        requires
            old(self).well_formed(),
        ensures
            final(self).well_formed(),
            final(self)@ == match find_id(old(self)@, id@) {
                Some(i) => if old(self)@[i].state == JobState::Uploading {
                    old(self)@.update(i, fail_closed_record(old(self)@[i]))
                } else {
                    old(self)@
                },
                None => old(self)@,
            },
            final(self).queued_uploads() == old(self).queued_uploads(),
            final(self).reserved_bytes() == old(self).reserved_bytes(),
            final(self).reservations() == old(self).reservations(),
    {
        if let Some(i) = self.position(id) {
            if self.records[i].state == JobState::Uploading {
                let ghost s = self@;
                let mut rec = self.records[i].clone();
                rec.state = JobState::NeedsReconciliation;
                rec.error = Some(String::from_str("Could not save the outcome. Check the device."));
                self.records.set(i, rec);
                proof {
                    assert(views(self.records@) =~= s.update(i as int, fail_closed_record(s[i as int])));
                    lemma_counts_update(s, i as int, fail_closed_record(s[i as int]));
                }
            }
        }
    }

    /// Records, in memory, how many bytes of the upload were sent so far.
    pub fn record_progress(&mut self, id: &str, sent_bytes: u64)
        requires
            old(self).well_formed(),
        ensures
            final(self).well_formed(),
            final(self)@ == match find_id(old(self)@, id@) {
                Some(i) => old(self)@.update(i, JobRecordView { sent_bytes, ..old(self)@[i] }),
                None => old(self)@,
            },
            final(self).queued_uploads() == old(self).queued_uploads(),
            final(self).reserved_bytes() == old(self).reserved_bytes(),
            final(self).reservations() == old(self).reservations(),
    {
        if let Some(i) = self.position(id) {
            let ghost s = self@;
            let mut rec = self.records[i].clone();
            rec.sent_bytes = sent_bytes;
            self.records.set(i, rec);
            proof {
                let x = JobRecordView { sent_bytes, ..s[i as int] };
                assert(views(self.records@) =~= s.update(i as int, x));
                lemma_counts_update(s, i as int, x);
            }
        }
    }

    /// Admits a transfer of `total_bytes` under the id `id` at time `now`,
    /// when [`admits`] holds: the new record is appended, an upload slot and
    /// the bytes are reserved. Otherwise the queue is full and nothing
    /// changes.
    pub fn enqueue_at(
        &mut self,
        id: String,
        now: u64,
        ip: IpAddress,
        filename: String,
        total_bytes: u64,
        expected: Option<(String, String)>,
    ) -> (r: Result<JobRecord, ApiError>)
        requires
            old(self).well_formed(),
        ensures
            final(self).well_formed(),
            admits(
                old(self).queued_uploads(),
                old(self).reserved_bytes(),
                old(self)@,
                total_bytes as nat,
            ) ==> {
                let rec = admitted(id@, now, ip, filename@, total_bytes, pair_text(expected));
                &&& result_view(r) == Ok::<JobRecordView, ApiError>(rec)
                &&& final(self)@ == old(self)@.push(rec)
                &&& final(self).queued_uploads() == old(self).queued_uploads() + 1
                &&& final(self).reserved_bytes() == old(self).reserved_bytes() + total_bytes
                &&& final(self).reservations() == old(self).reservations().push((id@, total_bytes))
            },
            !admits(
                old(self).queued_uploads(),
                old(self).reserved_bytes(),
                old(self)@,
                total_bytes as nat,
            ) ==> {
                &&& r == Err::<JobRecord, ApiError>(ApiError::QueueFull)
                &&& final(self)@ == old(self)@
                &&& final(self).queued_uploads() == old(self).queued_uploads()
                &&& final(self).reserved_bytes() == old(self).reserved_bytes()
                &&& final(self).reservations() == old(self).reservations()
            },
    {
        if self.queued_uploads >= QUEUE_CAPACITY {
            return Err(ApiError::QueueFull);
        }
        if total_bytes > MAX_BYTES - self.reserved_bytes {
            return Err(ApiError::QueueFull);
        }
        if self.unfinished_count() >= MAX_UNFINISHED {
            return Err(ApiError::QueueFull);
        }
        let (manufacturer, serial) = match expected {
            Some((m, s)) => (Some(m), Some(s)),
            None => (None, None),
        };
        let rec = JobRecord {
            id,
            filename,
            ip,
            state: JobState::Queued,
            sent_bytes: 0,
            total_bytes,
            stored_as: None,
            error_code: None,
            error: None,
            created_at_ms: now,
            finished_at_ms: None,
            manufacturer,
            serial,
        };
        let out = rec.clone();
        let ghost s = self@;
        let ghost rs = self.reservations();
        let reservation = Reservation { id: out.id.clone(), bytes: total_bytes };
        self.records.push(rec);
        proof {
            assert(views(self.records@) =~= s.push(out@));
            lemma_counts_push(s, out@);
        }
        self.queued_uploads = self.queued_uploads + 1;
        self.reservations.push(reservation);
        proof {
            assert(reservation_views(self.reservations@) =~= rs.push((out@.id, total_bytes)));
            lemma_total_push(rs, (out@.id, total_bytes));
        }
        self.reserved_bytes = self.reserved_bytes + total_bytes;
        Ok(out)
    }

    /// Admits a transfer under a fresh random id at the present time; see
    /// [`JobQueue::enqueue_at`].
    pub fn enqueue(
        &mut self,
        ip: IpAddress,
        filename: String,
        total_bytes: u64,
        expected: Option<(String, String)>,
    ) -> (r: Result<JobRecord, ApiError>)
        requires
            old(self).well_formed(),
        ensures
            final(self).well_formed(),
            admits(
                old(self).queued_uploads(),
                old(self).reserved_bytes(),
                old(self)@,
                total_bytes as nat,
            ) ==> {
                &&& r is Ok
                &&& r->Ok_0@ == admitted(
                    r->Ok_0@.id,
                    r->Ok_0@.created_at_ms,
                    ip,
                    filename@,
                    total_bytes,
                    pair_text(expected),
                )
                &&& r->Ok_0@.id.len() == 32
                &&& forall|k: int| 0 <= k < 32 ==> is_hex_digit(#[trigger] r->Ok_0@.id[k])
                &&& final(self)@ == old(self)@.push(r->Ok_0@)
                &&& final(self).queued_uploads() == old(self).queued_uploads() + 1
                &&& final(self).reserved_bytes() == old(self).reserved_bytes() + total_bytes
                &&& final(self).reservations() == old(self).reservations().push(
                    (r->Ok_0@.id, total_bytes),
                )
            },
            !admits(
                old(self).queued_uploads(),
                old(self).reserved_bytes(),
                old(self)@,
                total_bytes as nat,
            ) ==> {
                &&& r == Err::<JobRecord, ApiError>(ApiError::QueueFull)
                &&& final(self)@ == old(self)@
                &&& final(self).queued_uploads() == old(self).queued_uploads()
                &&& final(self).reserved_bytes() == old(self).reserved_bytes()
                &&& final(self).reservations() == old(self).reservations()
            },
    {
        let id = random_id();
        let now = now_ms();
        self.enqueue_at(id, now, ip, filename, total_bytes, expected)
    }

    /// The worker picked up an admitted upload: its slot is free again.
    pub fn upload_received(&mut self)
        requires
            old(self).well_formed(),
        ensures
            final(self).well_formed(),
            final(self)@ == old(self)@,
            final(self).queued_uploads() == if old(self).queued_uploads() > 0 {
                (old(self).queued_uploads() - 1) as nat
            } else {
                0
            },
            final(self).reserved_bytes() == old(self).reserved_bytes(),
            final(self).reservations() == old(self).reservations(),
    {
        if self.queued_uploads > 0 {
            self.queued_uploads = self.queued_uploads - 1;
        }
    }

    /// The worker is done with the upload of the transfer `id`: the bytes of
    /// its first reservation are free again, and the reservation is gone, so
    /// that its bytes are released once only. Without a reservation for `id`
    /// nothing changes.
    pub fn upload_released(&mut self, id: &str)
        requires
            old(self).well_formed(),
        ensures
            final(self).well_formed(),
            final(self)@ == old(self)@,
            final(self).queued_uploads() == old(self).queued_uploads(),
            match find_reservation(old(self).reservations(), id@) {
                Some(i) => {
                    &&& final(self).reservations() == old(self).reservations().remove(i)
                    &&& final(self).reserved_bytes() == old(self).reserved_bytes()
                        - old(self).reservations()[i].1
                },
                None => {
                    &&& final(self).reservations() == old(self).reservations()
                    &&& final(self).reserved_bytes() == old(self).reserved_bytes()
                },
            },
    {
        let ghost rs = self.reservations();
        let n = self.reservations.len();
        let mut i: usize = 0;
        while i < n
            invariant
                n == self.reservations@.len(),
                rs == reservation_views(self.reservations@),
                *self == *old(self),
                old(self).well_formed(),
                rs == old(self).reservations(),
                i <= n,
                forall|j: int| 0 <= j < i ==> #[trigger] rs[j].0 != id@,
            decreases n - i,
        {
            assert(rs[i as int] == (self.reservations@[i as int].id@, self.reservations@[i as int].bytes));
            if text_eq(self.reservations[i].id.as_str(), id) {
                proof {
                    let k = choose|k: int|
                        0 <= k < rs.len() && rs[k].0 == id@ && forall|j: int|
                            0 <= j < k ==> #[trigger] rs[j].0 != id@;
                    if k < i {
                        assert(rs[k].0 != id@);
                    } else if i < k {
                        assert(rs[i as int].0 != id@);
                    }
                    lemma_total_remove(rs, i as int);
                }
                let released = self.reservations.remove(i);
                proof {
                    assert(reservation_views(self.reservations@) =~= rs.remove(i as int));
                }
                self.reserved_bytes = self.reserved_bytes - released.bytes;
                return;
            }
            i = i + 1;
        }
    }

    /// Whether an earlier transfer to this device awaits reconciliation, by
    /// serial number and manufacturer or by address.
    pub fn is_blocked(&self, device: &MachineIdentity) -> (r: bool)
        ensures
            r == exists|i: int| 0 <= i < self@.len() && blocks(#[trigger] self@[i], *device),
    {
        let n = self.records.len();
        let mut i: usize = 0;
        let device_manufacturer = Some(device.manufacturer.clone());
        while i < n
            invariant
                n == self.records@.len(),
                i <= n,
                opt_text(device_manufacturer) == Some(device.manufacturer@),
                forall|j: int| 0 <= j < i ==> !blocks(#[trigger] self@[j], *device),
            decreases n - i,
        {
            let r = &self.records[i];
            if r.state == JobState::NeedsReconciliation && ((r.serial.is_some() && opt_text_eq(
                &r.serial,
                &device.serial,
            ) && opt_text_eq(&r.manufacturer, &device_manufacturer)) || r.ip == device.ip) {
                assert(blocks(self@[i as int], *device));
                return true;
            }
            i = i + 1;
        }
        false
    }

    /// Puts `rec` in place of the record at `i`, then prunes.
    fn commit(&mut self, i: usize, rec: JobRecord)
        requires
            old(self).well_formed(),
            i < old(self)@.len(),
        ensures
            final(self).well_formed(),
            final(self)@ == pruned(old(self)@.update(i as int, rec@)),
            final(self).queued_uploads() == old(self).queued_uploads(),
            final(self).reserved_bytes() == old(self).reserved_bytes(),
            final(self).reservations() == old(self).reservations(),
    {
        let ghost s = self@;
        self.records.set(i, rec);
        assert(views(self.records@) =~= s.update(i as int, rec@));
        prune_finished(&mut self.records);
        proof {
            lemma_pruned(s.update(i as int, rec@));
        }
    }
}

} // verus!
