//! The decisions of the upload worker. The worker itself (locks, identity
//! resolution, storage listing, the upload and the pauses between attempts)
//! runs outside; it hands each outcome here and acts on the verdict.
use vstd::prelude::*;
use crate::net::IpAddress;
use crate::machine::{MachineCapabilities, MachineError, MachineIdentity, MachineInfo, UploadReceipt};
use crate::error::ApiError;
use crate::jobs::{
    JobQueue, JobRecord, JobRecordView, JobState, blocks, find_id, upload_outcome, result_view,
};
use crate::text::{eq_ignoring_ascii_case, opt_text, text_eq_ignoring_ascii_case};

verus! {

/// How long, in seconds since the attempt began, a busy machine is retried.
pub const RETRY_WINDOW_SECS: u64 = 60;

/// The manufacturer and serial number a record expects, when it has both.
pub open spec fn expected_of(r: JobRecord) -> Option<(String, String)> {
    match (r.manufacturer, r.serial) {
        (Some(m), Some(s)) => Some((m, s)),
        _ => None,
    }
}

/// Where the next attempt goes and which device it expects there; `None`
/// when the transfer is gone or cancelled, and there is nothing to do.
pub fn next_attempt(record: &Option<JobRecord>) -> (r: Option<(IpAddress, Option<(String, String)>)>)
    ensures
        r == match *record {
            Some(x) => if x.state == JobState::Cancelled {
                None
            } else {
                Some((x.ip, expected_of(x)))
            },
            None => None,
        },
{
    match record {
        Some(x) => {
            if x.state == JobState::Cancelled {
                return None;
            }
            let expected = match (&x.manufacturer, &x.serial) {
                (Some(m), Some(s)) => Some((m.clone(), s.clone())),
                _ => None,
            };
            Some((x.ip, expected))
        },
        None => None,
    }
}

/// Whether the machine's file list must be checked before the upload: the
/// machine replaces files by name and the user did not approve replacement.
pub fn needs_storage_check(capabilities: &MachineCapabilities, overwrite: bool) -> (r: bool)
    ensures
        r == (capabilities.overwrites_by_name && !overwrite),
{
    capabilities.overwrites_by_name && !overwrite
}

/// What to do after the machine's file list was read.
#[derive(Debug)]
pub enum StorageVerdict {
    /// No file of that name: go on with the upload.
    Proceed,
    /// The machine was busy: mark the transfer waiting, pause, try again.
    Retry,
    /// Give up with this error.
    Refuse(ApiError),
}

/// Some file on the machine has the name, up to the case of ASCII letters.
pub open spec fn name_taken(files: Seq<String>, filename: Seq<char>) -> bool {
    exists|i: int| 0 <= i < files.len() && eq_ignoring_ascii_case(#[trigger] files[i]@, filename)
}

pub open spec fn storage_decision(
    listing: Result<Vec<String>, MachineError>,
    filename: Seq<char>,
    elapsed_secs: u64,
) -> StorageVerdict {
    match listing {
        Ok(files) => if name_taken(files@, filename) {
            StorageVerdict::Refuse(ApiError::Machine(MachineError::FileExists))
        } else {
            StorageVerdict::Proceed
        },
        Err(MachineError::Busy) => if elapsed_secs < RETRY_WINDOW_SECS {
            StorageVerdict::Retry
        } else {
            StorageVerdict::Refuse(ApiError::Machine(MachineError::Busy))
        },
        Err(e) => StorageVerdict::Refuse(ApiError::Machine(e)),
    }
}

/// Decides on the machine's file list: an existing file of that name
/// refuses the upload, a busy machine is retried within the window, any
/// other failure ends the attempt.
pub fn storage_verdict(
    listing: Result<Vec<String>, MachineError>,
    filename: &str,
    elapsed_secs: u64,
) -> (r: StorageVerdict)
    ensures
        r == storage_decision(listing, filename@, elapsed_secs),
{
    match &listing {
        Ok(files) => {
            let n = files.len();
            let mut i: usize = 0;
            while i < n
                invariant
                    n == files@.len(),
                    i <= n,
                    listing == Ok::<Vec<String>, MachineError>(*files),
                    forall|j: int|
                        0 <= j < i ==> !eq_ignoring_ascii_case(#[trigger] files@[j]@, filename@),
                decreases n - i,
            {
                if text_eq_ignoring_ascii_case(files[i].as_str(), filename) {
                    assert(eq_ignoring_ascii_case(files@[i as int]@, filename@));
                    return StorageVerdict::Refuse(ApiError::Machine(MachineError::FileExists));
                }
                i = i + 1;
            }
            StorageVerdict::Proceed
        },
        Err(MachineError::Busy) => {
            if elapsed_secs < RETRY_WINDOW_SECS {
                StorageVerdict::Retry
            } else {
                StorageVerdict::Refuse(ApiError::Machine(MachineError::Busy))
            }
        },
        Err(e) => StorageVerdict::Refuse(ApiError::Machine(e.clone())),
    }
}

/// What to do after an upload attempt.
#[derive(Debug)]
pub enum UploadVerdict {
    /// The machine took the file: record it as done.
    Delivered(UploadReceipt),
    /// The machine was busy and took nothing: mark the transfer waiting,
    /// pause, try again.
    Retry,
    /// Give up with this error.
    Refuse(ApiError),
}

pub open spec fn upload_decision(
    outcome: Result<UploadReceipt, MachineError>,
    elapsed_secs: u64,
) -> UploadVerdict {
    match outcome {
        Ok(receipt) => UploadVerdict::Delivered(receipt),
        Err(MachineError::Busy) => if elapsed_secs < RETRY_WINDOW_SECS {
            UploadVerdict::Retry
        } else {
            UploadVerdict::Refuse(ApiError::Machine(MachineError::Busy))
        },
        Err(e) => UploadVerdict::Refuse(ApiError::Machine(e)),
    }
}

/// Decides on the outcome of an upload: only an explicit busy reply within
/// the window is retried; an uncertain delivery, or any other failure, is
/// never sent again.
pub fn upload_verdict(outcome: Result<UploadReceipt, MachineError>, elapsed_secs: u64) -> (r:
    UploadVerdict)
    ensures
        r == upload_decision(outcome, elapsed_secs),
{
    match outcome {
        Ok(receipt) => UploadVerdict::Delivered(receipt),
        Err(MachineError::Busy) => {
            if elapsed_secs < RETRY_WINDOW_SECS {
                UploadVerdict::Retry
            } else {
                UploadVerdict::Refuse(ApiError::Machine(MachineError::Busy))
            }
        },
        Err(e) => UploadVerdict::Refuse(ApiError::Machine(e)),
    }
}

/// The error reported when a delivered upload could not be recorded as
/// done: its delivery counts as unknown.
pub fn unsaved_delivery() -> (r: ApiError)
    ensures
        r == ApiError::Machine(MachineError::DeliveryUnknown),
{
    ApiError::Machine(MachineError::DeliveryUnknown)
}

/// Whether a failed attempt is recorded: not where the transfer was
/// cancelled meanwhile.
pub fn records_failure(record: &Option<JobRecord>) -> (r: bool)
    ensures
        r == !(record matches Some(x) && x.state == JobState::Cancelled),
{
    match record {
        Some(x) => x.state != JobState::Cancelled,
        None => true,
    }
}

/// Only an explicit busy reply within the window is retried, before or
/// during an upload; an uncertain delivery is never sent again.
pub proof fn lemma_only_busy_retries(
    listing: Result<Vec<String>, MachineError>,
    filename: Seq<char>,
    outcome: Result<UploadReceipt, MachineError>,
    elapsed_secs: u64,
)
    ensures
        storage_decision(listing, filename, elapsed_secs) is Retry ==> listing == Err::<
            Vec<String>,
            MachineError,
        >(MachineError::Busy) && elapsed_secs < RETRY_WINDOW_SECS,
        upload_decision(outcome, elapsed_secs) is Retry ==> outcome == Err::<
            UploadReceipt,
            MachineError,
        >(MachineError::Busy) && elapsed_secs < RETRY_WINDOW_SECS,
        outcome == Err::<UploadReceipt, MachineError>(MachineError::DeliveryUnknown) ==> upload_decision(
            outcome,
            elapsed_secs,
        ) == UploadVerdict::Refuse(ApiError::Machine(MachineError::DeliveryUnknown)),
{
}

/// Some record awaiting reconciliation concerns this device.
pub open spec fn any_blocks(queue: Seq<JobRecordView>, device: MachineIdentity) -> bool {
    exists|i: int| 0 <= i < queue.len() && blocks(#[trigger] queue[i], device)
}

/// The manufacturer and serial number a record expects, as texts.
pub open spec fn expected_view(r: JobRecordView) -> Option<(Seq<char>, Seq<char>)> {
    match (r.manufacturer, r.serial) {
        (Some(m), Some(s)) => Some((m, s)),
        _ => None,
    }
}

/// Where one upload attempt stands.
#[derive(Debug)]
pub enum UploadPhase {
    /// About to read the record.
    Start,
    /// The device is being resolved; the record's file name is kept.
    Resolving(String),
    /// The machine's file list is being read.
    Checking(String, MachineInfo),
    /// The transfer is being marked as waiting.
    Waiting,
    /// The uploading marker is being committed.
    Marking(String),
    /// The file is being uploaded.
    Uploading,
    /// The delivery is being recorded.
    Completing,
    /// The attempt is over.
    Finished,
}

/// The upload of one queued transfer, in progress.
#[derive(Debug)]
pub struct UploadRun {
    /// The transfer's id.
    pub id: String,
    /// Whether the user approved replacing a file of the same name.
    pub overwrite: bool,
    pub phase: UploadPhase,
}

/// What the outside reports back to the upload worker.
#[derive(Debug)]
pub enum UploadEvent {
    /// Start (or start again, after a pause) from the record.
    Begin,
    /// The device that identity resolution found, or why none.
    Resolved(Result<MachineInfo, MachineError>),
    /// The machine's file list, and the seconds since the upload began.
    Listed(Result<Vec<String>, MachineError>, u64),
    /// The outcome of the saved change of the record that was asked for.
    Changed(Result<JobRecord, ApiError>),
    /// The outcome of the upload, and the seconds since the upload began.
    Uploaded(Result<UploadReceipt, MachineError>, u64),
}

/// What the upload worker is to do next.
#[derive(Debug)]
pub enum UploadAction {
    /// Resolve the device at `ip`, expecting `expected`.
    ResolveIdentity { ip: IpAddress, expected: Option<(String, String)> },
    /// Read the machine's file list.
    ListFiles,
    /// Save [`JobQueue::mark_waiting_unless_cancelled`].
    MarkWaitingUnlessCancelled,
    /// Save [`JobQueue::mark_waiting`].
    MarkWaiting,
    /// Save [`JobQueue::mark_uploading`] with this device.
    MarkUploading { device: MachineIdentity },
    /// Upload the transfer's file body under this name.
    Upload { filename: String },
    /// Save [`JobQueue::complete`] with this receipt.
    Complete { receipt: UploadReceipt },
    /// Pause, then begin again.
    Pause,
    /// The attempt is over, with this outcome.
    Finish(Result<(), ApiError>),
}

/// The phase of an upload, with file names as texts.
pub enum UploadPhaseView {
    Start,
    Resolving(Seq<char>),
    Checking(Seq<char>, MachineInfo),
    Waiting,
    Marking(Seq<char>),
    Uploading,
    Completing,
    Finished,
}

/// An upload in progress, with texts as character sequences.
pub struct UploadRunView {
    pub id: Seq<char>,
    pub overwrite: bool,
    pub phase: UploadPhaseView,
}

/// An action of the upload worker, with texts as character sequences.
pub enum UploadActionView {
    ResolveIdentity { ip: IpAddress, expected: Option<(Seq<char>, Seq<char>)> },
    ListFiles,
    MarkWaitingUnlessCancelled,
    MarkWaiting,
    MarkUploading { device: MachineIdentity },
    Upload { filename: Seq<char> },
    Complete { receipt: UploadReceipt },
    Pause,
    Finish(Result<(), ApiError>),
}

impl View for UploadPhase {
    type V = UploadPhaseView;

    open spec fn view(&self) -> UploadPhaseView {
        match self {
            UploadPhase::Start => UploadPhaseView::Start,
            UploadPhase::Resolving(f) => UploadPhaseView::Resolving(f@),
            UploadPhase::Checking(f, info) => UploadPhaseView::Checking(f@, *info),
            UploadPhase::Waiting => UploadPhaseView::Waiting,
            UploadPhase::Marking(f) => UploadPhaseView::Marking(f@),
            UploadPhase::Uploading => UploadPhaseView::Uploading,
            UploadPhase::Completing => UploadPhaseView::Completing,
            UploadPhase::Finished => UploadPhaseView::Finished,
        }
    }
}

impl View for UploadRun {
    type V = UploadRunView;

    open spec fn view(&self) -> UploadRunView {
        UploadRunView { id: self.id@, overwrite: self.overwrite, phase: self.phase@ }
    }
}

pub open spec fn pair_view(p: Option<(String, String)>) -> Option<(Seq<char>, Seq<char>)> {
    match p {
        Some((a, b)) => Some((a@, b@)),
        None => None,
    }
}

impl View for UploadAction {
    type V = UploadActionView;

    open spec fn view(&self) -> UploadActionView {
        match self {
            UploadAction::ResolveIdentity { ip, expected } => UploadActionView::ResolveIdentity {
                ip: *ip,
                expected: pair_view(*expected),
            },
            UploadAction::ListFiles => UploadActionView::ListFiles,
            UploadAction::MarkWaitingUnlessCancelled => UploadActionView::MarkWaitingUnlessCancelled,
            UploadAction::MarkWaiting => UploadActionView::MarkWaiting,
            UploadAction::MarkUploading { device } => UploadActionView::MarkUploading {
                device: *device,
            },
            UploadAction::Upload { filename } => UploadActionView::Upload { filename: filename@ },
            UploadAction::Complete { receipt } => UploadActionView::Complete { receipt: *receipt },
            UploadAction::Pause => UploadActionView::Pause,
            UploadAction::Finish(r) => UploadActionView::Finish(*r),
        }
    }
}

/// One step of an upload attempt: the next state and action after `event`,
/// reading the queue `queue`. The attempt reads the record, resolves the
/// device, refuses a device with an uncertain earlier transfer, checks the
/// file list where needed, commits the uploading marker, and only then
/// uploads, under the name the record holds.
pub open spec fn upload_next(run: UploadRunView, queue: Seq<JobRecordView>, event: UploadEvent) -> (
    UploadRunView,
    UploadActionView,
) {
    let at = |p: UploadPhaseView| UploadRunView { phase: p, ..run };
    let finish = |r: Result<(), ApiError>|
        (at(UploadPhaseView::Finished), UploadActionView::Finish(r));
    match run.phase {
        UploadPhaseView::Start => match event {
            UploadEvent::Begin => match find_id(queue, run.id) {
                Some(i) => if queue[i].state == JobState::Cancelled {
                    finish(Ok(()))
                } else {
                    (
                        at(UploadPhaseView::Resolving(queue[i].filename)),
                        UploadActionView::ResolveIdentity {
                            ip: queue[i].ip,
                            expected: expected_view(queue[i]),
                        },
                    )
                },
                None => finish(Ok(())),
            },
            _ => finish(Err(ApiError::OutOfOrder)),
        },
        UploadPhaseView::Resolving(f) => match event {
            UploadEvent::Resolved(Err(e)) => finish(Err(ApiError::Machine(e))),
            UploadEvent::Resolved(Ok(info)) => if any_blocks(queue, info.identity) {
                finish(Err(ApiError::PreviousDeliveryUnknown))
            } else if info.capabilities.overwrites_by_name && !run.overwrite {
                (at(UploadPhaseView::Checking(f, info)), UploadActionView::ListFiles)
            } else {
                (
                    at(UploadPhaseView::Marking(f)),
                    UploadActionView::MarkUploading { device: info.identity },
                )
            },
            _ => finish(Err(ApiError::OutOfOrder)),
        },
        UploadPhaseView::Checking(f, info) => match event {
            UploadEvent::Listed(listing, elapsed) => match storage_decision(listing, f, elapsed) {
                StorageVerdict::Proceed => (
                    at(UploadPhaseView::Marking(f)),
                    UploadActionView::MarkUploading { device: info.identity },
                ),
                StorageVerdict::Retry => (
                    at(UploadPhaseView::Waiting),
                    UploadActionView::MarkWaitingUnlessCancelled,
                ),
                StorageVerdict::Refuse(e) => finish(Err(e)),
            },
            _ => finish(Err(ApiError::OutOfOrder)),
        },
        UploadPhaseView::Waiting => match event {
            UploadEvent::Changed(Ok(_)) => (at(UploadPhaseView::Start), UploadActionView::Pause),
            UploadEvent::Changed(Err(e)) => finish(Err(e)),
            _ => finish(Err(ApiError::OutOfOrder)),
        },
        UploadPhaseView::Marking(f) => match event {
            UploadEvent::Changed(Ok(_)) => (
                at(UploadPhaseView::Uploading),
                UploadActionView::Upload { filename: f },
            ),
            UploadEvent::Changed(Err(e)) => finish(Err(e)),
            _ => finish(Err(ApiError::OutOfOrder)),
        },
        UploadPhaseView::Uploading => match event {
            UploadEvent::Uploaded(outcome, elapsed) => match upload_decision(outcome, elapsed) {
                UploadVerdict::Delivered(receipt) => (
                    at(UploadPhaseView::Completing),
                    UploadActionView::Complete { receipt },
                ),
                UploadVerdict::Retry => (at(UploadPhaseView::Waiting), UploadActionView::MarkWaiting),
                UploadVerdict::Refuse(e) => finish(Err(e)),
            },
            _ => finish(Err(ApiError::OutOfOrder)),
        },
        UploadPhaseView::Completing => match event {
            UploadEvent::Changed(Ok(_)) => finish(Ok(())),
            UploadEvent::Changed(Err(_)) => finish(
                Err(ApiError::Machine(MachineError::DeliveryUnknown)),
            ),
            _ => finish(Err(ApiError::OutOfOrder)),
        },
        UploadPhaseView::Finished => finish(Err(ApiError::OutOfOrder)),
    }
}

impl UploadRun {
    /// An upload attempt of the transfer `id` that has not begun.
    pub fn new(id: String, overwrite: bool) -> (r: UploadRun)
        ensures
            r@ == (UploadRunView { id: id@, overwrite, phase: UploadPhaseView::Start }),
    {
        UploadRun { id, overwrite, phase: UploadPhase::Start }
    }

    fn finish(id: String, overwrite: bool, r: Result<(), ApiError>) -> (out: (UploadRun, UploadAction))
        ensures
            out.0@ == (UploadRunView { id: id@, overwrite, phase: UploadPhaseView::Finished }),
            out.1@ == UploadActionView::Finish(r),
    {
        (UploadRun { id, overwrite, phase: UploadPhase::Finished }, UploadAction::Finish(r))
    }

    /// Takes the outcome of the last action and decides the next one, reading
    /// the queue; see [`upload_next`].
    pub fn step(self, queue: &JobQueue, event: UploadEvent) -> (r: (UploadRun, UploadAction))
        ensures
            (r.0@, r.1@) == upload_next(self@, queue@, event),
    {
        let UploadRun { id, overwrite, phase } = self;
        match phase {
            UploadPhase::Start => {
                if let UploadEvent::Begin = event {
                    match queue.get(id.as_str()) {
                        Some(x) => {
                            if x.state == JobState::Cancelled {
                                return UploadRun::finish(id, overwrite, Ok(()));
                            }
                            let expected = match (&x.manufacturer, &x.serial) {
                                (Some(m), Some(s)) => Some((m.clone(), s.clone())),
                                _ => None,
                            };
                            let ip = x.ip;
                            (
                                UploadRun { id, overwrite, phase: UploadPhase::Resolving(x.filename) },
                                UploadAction::ResolveIdentity { ip, expected },
                            )
                        },
                        None => UploadRun::finish(id, overwrite, Ok(())),
                    }
                } else {
                    UploadRun::finish(id, overwrite, Err(ApiError::OutOfOrder))
                }
            },
            UploadPhase::Resolving(f) => match event {
                UploadEvent::Resolved(Err(e)) => UploadRun::finish(
                    id,
                    overwrite,
                    Err(ApiError::Machine(e)),
                ),
                UploadEvent::Resolved(Ok(info)) => {
                    if queue.is_blocked(&info.identity) {
                        UploadRun::finish(id, overwrite, Err(ApiError::PreviousDeliveryUnknown))
                    } else if needs_storage_check(&info.capabilities, overwrite) {
                        (
                            UploadRun { id, overwrite, phase: UploadPhase::Checking(f, info) },
                            UploadAction::ListFiles,
                        )
                    } else {
                        let MachineInfo { identity, capabilities: _ } = info;
                        (
                            UploadRun { id, overwrite, phase: UploadPhase::Marking(f) },
                            UploadAction::MarkUploading { device: identity },
                        )
                    }
                },
                _ => UploadRun::finish(id, overwrite, Err(ApiError::OutOfOrder)),
            },
            UploadPhase::Checking(f, info) => match event {
                UploadEvent::Listed(listing, elapsed) => {
                    match storage_verdict(listing, f.as_str(), elapsed) {
                        StorageVerdict::Proceed => {
                            let MachineInfo { identity, capabilities: _ } = info;
                            (
                                UploadRun { id, overwrite, phase: UploadPhase::Marking(f) },
                                UploadAction::MarkUploading { device: identity },
                            )
                        },
                        StorageVerdict::Retry => (
                            UploadRun { id, overwrite, phase: UploadPhase::Waiting },
                            UploadAction::MarkWaitingUnlessCancelled,
                        ),
                        StorageVerdict::Refuse(e) => UploadRun::finish(id, overwrite, Err(e)),
                    }
                },
                _ => UploadRun::finish(id, overwrite, Err(ApiError::OutOfOrder)),
            },
            UploadPhase::Waiting => match event {
                UploadEvent::Changed(Ok(_)) => (
                    UploadRun { id, overwrite, phase: UploadPhase::Start },
                    UploadAction::Pause,
                ),
                UploadEvent::Changed(Err(e)) => UploadRun::finish(id, overwrite, Err(e)),
                _ => UploadRun::finish(id, overwrite, Err(ApiError::OutOfOrder)),
            },
            UploadPhase::Marking(f) => match event {
                UploadEvent::Changed(Ok(_)) => (
                    UploadRun { id, overwrite, phase: UploadPhase::Uploading },
                    UploadAction::Upload { filename: f },
                ),
                UploadEvent::Changed(Err(e)) => UploadRun::finish(id, overwrite, Err(e)),
                _ => UploadRun::finish(id, overwrite, Err(ApiError::OutOfOrder)),
            },
            UploadPhase::Uploading => match event {
                UploadEvent::Uploaded(outcome, elapsed) => match upload_verdict(outcome, elapsed) {
                    UploadVerdict::Delivered(receipt) => (
                        UploadRun { id, overwrite, phase: UploadPhase::Completing },
                        UploadAction::Complete { receipt },
                    ),
                    UploadVerdict::Retry => (
                        UploadRun { id, overwrite, phase: UploadPhase::Waiting },
                        UploadAction::MarkWaiting,
                    ),
                    UploadVerdict::Refuse(e) => UploadRun::finish(id, overwrite, Err(e)),
                },
                _ => UploadRun::finish(id, overwrite, Err(ApiError::OutOfOrder)),
            },
            UploadPhase::Completing => match event {
                UploadEvent::Changed(Ok(_)) => UploadRun::finish(id, overwrite, Ok(())),
                UploadEvent::Changed(Err(_)) => UploadRun::finish(id, overwrite, Err(unsaved_delivery())),
                _ => UploadRun::finish(id, overwrite, Err(ApiError::OutOfOrder)),
            },
            UploadPhase::Finished => UploadRun::finish(id, overwrite, Err(ApiError::OutOfOrder)),
        }
    }
}

/// The order of an upload attempt: a file is uploaded only right after the
/// uploading marker was committed, under the name the record held when the
/// attempt began; the marker is asked for only for a device with no
/// uncertain earlier transfer and, where the machine replaces files by name
/// without approval, only after its file list showed no such name. Where the
/// commit reported is the queue's own outcome, the record was found, was not
/// cancelled, and became uploading to the resolved device.
pub proof fn lemma_upload_order(
    run: UploadRunView,
    queue: Seq<JobRecordView>,
    event: UploadEvent,
)
    ensures
        ({
            let (next, action) = upload_next(run, queue, event);
            &&& (action matches UploadActionView::Upload { filename } ==> {
                &&& run.phase matches UploadPhaseView::Marking(f) && f == filename
                &&& event matches UploadEvent::Changed(Ok(_))
            })
            &&& (action matches UploadActionView::MarkUploading { device } ==> {
                &&& (run.phase matches UploadPhaseView::Resolving(_) ==> (event matches UploadEvent::Resolved(Ok(info)) && info.identity == device && !any_blocks(queue, device) && !(info.capabilities.overwrites_by_name && !run.overwrite)))
                &&& (run.phase matches UploadPhaseView::Checking(f, info) ==> (event matches UploadEvent::Listed(listing, elapsed) && storage_decision(listing, f, elapsed) is Proceed && info.identity == device))
                &&& (run.phase is Resolving || run.phase is Checking)
                &&& next.phase is Marking
            })
            &&& (next.phase matches UploadPhaseView::Resolving(f) ==> (find_id(queue, run.id) matches Some(i) && queue[i].filename == f && queue[i].state != JobState::Cancelled && run.phase is Start))
            &&& (next.phase is Checking ==> action is ListFiles && !any_blocks(queue, next.phase->Checking_1.identity))
            &&& next.id == run.id
        }),
{
}

/// Where the commit reported is what [`JobQueue::mark_uploading`] gives on
/// this queue, an upload follows only if the record was there and not
/// cancelled, and the committed record is uploading to `device`.
pub proof fn lemma_upload_after_commit(
    run: UploadRunView,
    queue: Seq<JobRecordView>,
    device: MachineIdentity,
    committed: Result<JobRecord, ApiError>,
)
    requires
        run.phase is Marking,
        result_view(committed) == upload_outcome(queue, run.id, device).1,
    ensures
        upload_next(run, queue, UploadEvent::Changed(committed)).1 is Upload ==> {
            &&& find_id(queue, run.id) matches Some(i) && queue[i].state != JobState::Cancelled
            &&& committed matches Ok(x) && x@.state == JobState::Uploading && x@.ip == device.ip
                && x@.manufacturer == Some(device.manufacturer@)
        },
{
}

/// The state and last action of an attempt after the events `events`, the
/// queue standing as `queues[k]` when the `k`-th event was handled.
pub open spec fn upload_after(
    run: UploadRunView,
    queues: Seq<Seq<JobRecordView>>,
    events: Seq<UploadEvent>,
) -> (UploadRunView, UploadActionView)
    decreases events.len(),
{
    if events.len() == 0 || queues.len() != events.len() {
        (run, UploadActionView::Pause)
    } else {
        upload_next(
            upload_after(run, queues.drop_last(), events.drop_last()).0,
            queues.last(),
            events.last(),
        )
    }
}

/// The event began the attempt on a queue whose record of `id` was there,
/// not cancelled, and named the file `filename`.
pub open spec fn begins_at(
    id: Seq<char>,
    queue: Seq<JobRecordView>,
    event: UploadEvent,
    filename: Seq<char>,
) -> bool {
    &&& event is Begin
    &&& find_id(queue, id) is Some
    &&& queue[find_id(queue, id)->0].filename == filename
    &&& queue[find_id(queue, id)->0].state != JobState::Cancelled
}

/// The event resolved `device`, and no record of the queue awaiting
/// reconciliation concerned it.
pub open spec fn cleared_at(queue: Seq<JobRecordView>, event: UploadEvent, device: MachineIdentity) -> bool {
    &&& event is Resolved
    &&& event->Resolved_0 is Ok
    &&& event->Resolved_0->Ok_0.identity == device
    &&& !any_blocks(queue, device)
}

/// Some event before the `n`-th began the attempt naming `filename`.
pub open spec fn began(
    id: Seq<char>,
    queues: Seq<Seq<JobRecordView>>,
    events: Seq<UploadEvent>,
    n: int,
    filename: Seq<char>,
) -> bool {
    exists|k: int| 0 <= k < n && #[trigger] begins_at(id, queues[k], events[k], filename)
}

/// Some event before the `n`-th resolved `device`, then not blocked.
pub open spec fn cleared(
    queues: Seq<Seq<JobRecordView>>,
    events: Seq<UploadEvent>,
    n: int,
    device: MachineIdentity,
) -> bool {
    exists|k: int| 0 <= k < n && #[trigger] cleared_at(queues[k], events[k], device)
}

proof fn lemma_began_prefix(
    id: Seq<char>,
    queues: Seq<Seq<JobRecordView>>,
    events: Seq<UploadEvent>,
    n: int,
    f: Seq<char>,
)
    requires
        0 < n <= events.len(),
        queues.len() == events.len(),
        began(id, queues.drop_last(), events.drop_last(), n - 1, f),
    ensures
        began(id, queues, events, n - 1, f),
{
    let k = choose|k: int|
        0 <= k < n - 1 && #[trigger] begins_at(id, queues.drop_last()[k], events.drop_last()[k], f);
    assert(queues.drop_last()[k] == queues[k] && events.drop_last()[k] == events[k]);
    assert(begins_at(id, queues[k], events[k], f));
}

proof fn lemma_cleared_prefix(
    queues: Seq<Seq<JobRecordView>>,
    events: Seq<UploadEvent>,
    n: int,
    device: MachineIdentity,
)
    requires
        0 < n <= events.len(),
        queues.len() == events.len(),
        cleared(queues.drop_last(), events.drop_last(), n - 1, device),
    ensures
        cleared(queues, events, n - 1, device),
{
    let k = choose|k: int|
        0 <= k < n - 1 && #[trigger] cleared_at(queues.drop_last()[k], events.drop_last()[k], device);
    assert(queues.drop_last()[k] == queues[k] && events.drop_last()[k] == events[k]);
    assert(cleared_at(queues[k], events[k], device));
}

/// What holds of an attempt at every point: the file name it carries came
/// from the record when the attempt began, and the device it is about to
/// mark was resolved and found not blocked.
pub proof fn lemma_upload_run_invariant(
    run: UploadRunView,
    queues: Seq<Seq<JobRecordView>>,
    events: Seq<UploadEvent>,
)
    requires
        run.phase is Start,
        queues.len() == events.len(),
    ensures
        ({
            let (r, a) = upload_after(run, queues, events);
            let n = events.len() as int;
            &&& r.id == run.id
            &&& r.overwrite == run.overwrite
            &&& (r.phase is Resolving ==> began(run.id, queues, events, n, r.phase->Resolving_0))
            &&& (r.phase is Checking ==> began(run.id, queues, events, n, r.phase->Checking_0))
            &&& (r.phase is Checking ==> cleared(queues, events, n, r.phase->Checking_1.identity))
            &&& (r.phase is Marking ==> began(run.id, queues, events, n, r.phase->Marking_0))
            &&& (r.phase is Marking ==> a is MarkUploading && cleared(queues, events, n, a->device))
        }),
    decreases events.len(),
{
    let n = events.len() as int;
    if n > 0 {
        let qs = queues.drop_last();
        let es = events.drop_last();
        lemma_upload_run_invariant(run, qs, es);
        let (p, pa) = upload_after(run, qs, es);
        let (r, a) = upload_after(run, queues, events);
        let q = queues.last();
        let e = events.last();
        assert(queues[n - 1] == q && events[n - 1] == e);
        match p.phase {
            UploadPhaseView::Start => {
                if r.phase is Resolving {
                    assert(begins_at(run.id, queues[n - 1], events[n - 1], r.phase->Resolving_0));
                }
            },
            UploadPhaseView::Resolving(f) => {
                lemma_began_prefix(run.id, queues, events, n, f);
                if r.phase is Checking || r.phase is Marking {
                    assert(cleared_at(queues[n - 1], events[n - 1], e->Resolved_0->Ok_0.identity));
                }
            },
            UploadPhaseView::Checking(f, info) => {
                lemma_began_prefix(run.id, queues, events, n, f);
                lemma_cleared_prefix(queues, events, n, info.identity);
            },
            _ => {},
        }
    }
}

/// The order over a whole attempt: a file is uploaded only right after the
/// uploading marker was committed for a device that was resolved and found
/// not blocked, and under the name the record held, not cancelled, when the
/// attempt began. Where the commit reported is what
/// [`JobQueue::mark_uploading`] gives on the queue `committed_on`, the record
/// was there, was not cancelled, and is now uploading to that device.
pub proof fn lemma_upload_run(
    run: UploadRunView,
    queues: Seq<Seq<JobRecordView>>,
    events: Seq<UploadEvent>,
    committed_on: Seq<JobRecordView>,
)
    requires
        run.phase is Start,
        queues.len() == events.len(),
        events.len() > 0,
    ensures
        ({
            let n = events.len() as int;
            let a = upload_after(run, queues, events).1;
            let before = upload_after(run, queues.drop_last(), events.drop_last()).1;
            a is Upload ==> {
                &&& events.last() is Changed
                &&& events.last()->Changed_0 is Ok
                &&& before is MarkUploading
                &&& cleared(queues, events, n - 1, before->device)
                &&& began(run.id, queues, events, n - 1, a->filename)
                &&& (result_view(events.last()->Changed_0) == upload_outcome(
                    committed_on,
                    run.id,
                    before->device,
                ).1 ==> {
                    &&& find_id(committed_on, run.id) is Some
                    &&& committed_on[find_id(committed_on, run.id)->0].state
                        != JobState::Cancelled
                    &&& events.last()->Changed_0->Ok_0@.state == JobState::Uploading
                    &&& events.last()->Changed_0->Ok_0@.ip == before->device.ip
                    &&& events.last()->Changed_0->Ok_0@.serial == opt_text(before->device.serial)
                    &&& events.last()->Changed_0->Ok_0@.manufacturer == Some(
                        before->device.manufacturer@,
                    )
                })
            }
        }),
{
    let n = events.len() as int;
    let qs = queues.drop_last();
    let es = events.drop_last();
    lemma_upload_run_invariant(run, qs, es);
    let (p, pa) = upload_after(run, qs, es);
    if p.phase is Marking {
        lemma_began_prefix(run.id, queues, events, n, p.phase->Marking_0);
        lemma_cleared_prefix(queues, events, n, pa->device);
    }
}

/// A failed identity resolution ends the attempt with that failure; an
/// attempt ends well only where the record was gone or cancelled when the
/// attempt began, or after the delivery was recorded.
pub proof fn lemma_upload_outcomes(run: UploadRunView, queue: Seq<JobRecordView>, event: UploadEvent)
    ensures
        ({
            let (next, action) = upload_next(run, queue, event);
            &&& (run.phase is Resolving && event is Resolved && event->Resolved_0 is Err)
                ==> action == UploadActionView::Finish(
                Err(ApiError::Machine(event->Resolved_0->Err_0)),
            )
            &&& (action == UploadActionView::Finish(Ok(()))) ==> {
                ||| (run.phase is Start && event is Begin && (find_id(queue, run.id) is None
                    || queue[find_id(queue, run.id)->0].state == JobState::Cancelled))
                ||| (run.phase is Completing && event is Changed && event->Changed_0 is Ok)
            }
        }),
{
}

} // verus!
