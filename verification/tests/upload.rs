use ember_bridge::error::ApiError;
use ember_bridge::identity::{plan_resolve, Resolution, ResolveAction, ResolveEvent};
use ember_bridge::machine::MachineInfo;
use ember_bridge::jobs::{JobQueue, JobState};
use ember_bridge::machine::{MachineCapabilities, MachineError, MachineIdentity, UploadReceipt};
use ember_bridge::net::IpAddress;
use ember_bridge::text::text_eq_ignoring_ascii_case;
use ember_bridge::upload::{
    needs_storage_check, next_attempt, records_failure, storage_verdict, unsaved_delivery,
    upload_verdict, StorageVerdict, UploadAction, UploadEvent, UploadRun, UploadVerdict,
};

fn ip4() -> IpAddress {
    IpAddress::v4(192, 168, 1, 4)
}

fn device(serial: &str) -> MachineIdentity {
    MachineIdentity {
        ip: ip4(),
        serial: Some(serial.into()),
        manufacturer: "test".into(),
        model: "test".into(),
        name: None,
        firmware: None,
    }
}

fn caps(overwrites_by_name: bool) -> MachineCapabilities {
    MachineCapabilities { max_file_bytes: None, can_delete_files: true, overwrites_by_name }
}

fn queued(q: &mut JobQueue, filename: &str) -> String {
    let r = q
        .enqueue(
            ip4(),
            filename.into(),
            6,
            Some(("test".into(), "intended".into())),
        )
        .unwrap();
    q.upload_received();
    r.id
}

struct Sim {
    devices: Vec<(IpAddress, String)>,
    files: Vec<String>,
    busy: usize,
    uncertain: bool,
    calls: usize,
}

impl Sim {
    fn new() -> Sim {
        Sim {
            devices: vec![(ip4(), "intended".to_string())],
            files: vec!["existing.pes".to_string()],
            busy: 0,
            uncertain: false,
            calls: 0,
        }
    }

    fn info(&self, at: IpAddress) -> Option<MachineInfo> {
        self.devices.iter().find(|d| d.0 == at).map(|d| MachineInfo {
            identity: MachineIdentity { ip: d.0, ..device(&d.1) },
            capabilities: caps(true),
        })
    }

    fn resolve(
        &self,
        at: IpAddress,
        expected: Option<(String, String)>,
    ) -> Result<MachineInfo, MachineError> {
        let (mut resolution, mut action) = Resolution::start(plan_resolve(&Vec::new(), at, expected));
        loop {
            let event = match action {
                ResolveAction::Probe { ip, .. } | ResolveAction::ProbeCandidate { ip, .. } => {
                    ResolveEvent::Probed(Ok(self.info(ip)))
                }
                ResolveAction::Discover { .. } => ResolveEvent::Discovered(
                    self.devices.iter().filter_map(|d| self.info(d.0)).collect(),
                ),
                ResolveAction::Accept { info, .. } => return Ok(info),
                ResolveAction::Refuse(e) => return Err(e),
            };
            let (next, next_action) = resolution.step(event);
            resolution = next;
            action = next_action;
        }
    }
}

/// Runs one upload attempt against the simulated machine, as the worker does.
fn run_upload(q: &mut JobQueue, sim: &mut Sim, id: &str, overwrite: bool) -> Result<(), ApiError> {
    let mut run = UploadRun::new(id.to_string(), overwrite);
    let mut event = UploadEvent::Begin;
    let mut elapsed: u64 = 0;
    loop {
        let (next, action) = run.step(q, event);
        run = next;
        event = match action {
            UploadAction::ResolveIdentity { ip, expected } => {
                UploadEvent::Resolved(sim.resolve(ip, expected))
            }
            UploadAction::ListFiles => UploadEvent::Listed(Ok(sim.files.clone()), elapsed),
            UploadAction::MarkWaitingUnlessCancelled => {
                UploadEvent::Changed(q.mark_waiting_unless_cancelled(id))
            }
            UploadAction::MarkWaiting => UploadEvent::Changed(q.mark_waiting(id)),
            UploadAction::MarkUploading { device } => {
                UploadEvent::Changed(q.mark_uploading(id, &device))
            }
            UploadAction::Upload { filename } => {
                sim.calls += 1;
                let outcome = if sim.busy > 0 {
                    sim.busy -= 1;
                    Err(MachineError::Busy)
                } else if sim.uncertain {
                    Err(MachineError::DeliveryUnknown)
                } else {
                    Ok(UploadReceipt { bytes_sent: 6, stored_as: Some(filename) })
                };
                UploadEvent::Uploaded(outcome, elapsed)
            }
            UploadAction::Complete { receipt } => UploadEvent::Changed(q.complete(id, &receipt)),
            UploadAction::Pause => {
                elapsed += 2;
                UploadEvent::Begin
            }
            UploadAction::Finish(outcome) => return outcome,
        };
    }
}

#[test]
fn busy_retries_but_uncertain_delivery_does_not() {
    let mut q = JobQueue::new();
    let mut sim = Sim::new();
    sim.busy = 1;
    let id = queued(&mut q, "new.pes");
    run_upload(&mut q, &mut sim, &id, false).unwrap();
    assert_eq!(q.get(&id).unwrap().state, JobState::Done);
    assert_eq!(sim.calls, 2);
    sim.uncertain = true;
    let id = queued(&mut q, "uncertain.pes");
    let err = run_upload(&mut q, &mut sim, &id, false).unwrap_err();
    assert_eq!(err.code(), "delivery_unknown");
    assert_eq!(sim.calls, 3);
    q.fail(&id, &err).unwrap();
    assert_eq!(q.get(&id).unwrap().state, JobState::NeedsReconciliation);
    let next = queued(&mut q, "another.pes");
    assert_eq!(
        run_upload(&mut q, &mut sim, &next, false).unwrap_err().code(),
        "previous_delivery_unknown"
    );
    assert_eq!(sim.calls, 3);
}

#[test]
fn cancelled_and_unconfirmed_replacements_never_upload() {
    let mut q = JobQueue::new();
    let mut sim = Sim::new();
    let id = queued(&mut q, "new.pes");
    q.cancel(&id).unwrap();
    run_upload(&mut q, &mut sim, &id, false).unwrap();
    let id = queued(&mut q, "EXISTING.pes");
    assert_eq!(run_upload(&mut q, &mut sim, &id, false).unwrap_err().code(), "file_exists");
    assert_eq!(sim.calls, 0);
    let id = queued(&mut q, "existing.pes");
    run_upload(&mut q, &mut sim, &id, true).unwrap();
    assert_eq!(sim.calls, 1);
    assert!(needs_storage_check(&caps(true), false));
    assert!(!needs_storage_check(&caps(false), false));
}

#[test]
fn retention_keeps_uncertain_outcomes_and_skips_pruned_cancelled_payloads() {
    let mut q = JobQueue::new();
    let mut sim = Sim::new();
    let cancelled = queued(&mut q, "cancelled.pes");
    q.cancel(&cancelled).unwrap();
    let uncertain = queued(&mut q, "unknown.pes");
    q.fail(&uncertain, &ApiError::Machine(MachineError::DeliveryUnknown)).unwrap();
    for _ in 0..105 {
        let id = queued(&mut q, "finished.pes");
        q.upload_released(&id);
        let receipt = UploadReceipt { bytes_sent: 6, stored_as: None };
        q.complete(&id, &receipt).unwrap();
    }
    assert_eq!(q.list().len(), 101);
    assert!(q.get(&cancelled).is_none());
    assert_eq!(q.get(&uncertain).unwrap().state, JobState::NeedsReconciliation);
    run_upload(&mut q, &mut sim, &cancelled, false).unwrap();
    assert_eq!(sim.calls, 0);
    assert!(next_attempt(&q.get(&cancelled)).is_none());
}

#[test]
fn queued_identity_cannot_be_replaced_before_upload() {
    let mut q = JobQueue::new();
    let mut sim = Sim::new();
    let id = queued(&mut q, "new.pes");
    sim.devices[0].1 = "different".to_string();
    let err = run_upload(&mut q, &mut sim, &id, false).unwrap_err();
    assert_eq!(err.code(), "identity_changed");
    assert_eq!(sim.calls, 0);
    assert!(records_failure(&q.get(&id)));
    q.fail(&id, &err).unwrap();
    assert_eq!(q.get(&id).unwrap().state, JobState::Failed);
}

#[test]
fn busy_machine_is_given_up_after_the_window() {
    let mut q = JobQueue::new();
    let mut sim = Sim::new();
    sim.busy = 100;
    let id = queued(&mut q, "new.pes");
    assert_eq!(run_upload(&mut q, &mut sim, &id, false).unwrap_err().code(), "busy");
    assert_eq!(sim.calls, 31);
    assert_eq!(q.get(&id).unwrap().state, JobState::Uploading);
    q.fail(&id, &ApiError::Machine(MachineError::Busy)).unwrap();
    assert_eq!(q.get(&id).unwrap().state, JobState::Failed);
}

#[test]
fn steps_out_of_order_are_refused() {
    let q = JobQueue::new();
    let run = UploadRun::new("x".to_string(), false);
    let (_, action) = run.step(&q, UploadEvent::Changed(Err(ApiError::NotFound)));
    match action {
        UploadAction::Finish(Err(e)) => assert_eq!(e.code(), "internal"),
        _ => panic!("out-of-order event accepted"),
    }
    let run = UploadRun::new("missing".to_string(), false);
    assert!(matches!(run.step(&q, UploadEvent::Begin).1, UploadAction::Finish(Ok(()))));
}

#[test]
fn storage_listing_verdicts() {
    let ok = Ok(vec!["a.pes".to_string(), "B.pes".to_string()]);
    assert!(matches!(storage_verdict(ok, "c.pes", 0), StorageVerdict::Proceed));
    let ok = Ok(vec!["a.pes".to_string(), "B.pes".to_string()]);
    assert!(matches!(storage_verdict(ok, "b.PES", 0), StorageVerdict::Refuse(_)));
    assert!(matches!(storage_verdict(Err(MachineError::Busy), "a", 59), StorageVerdict::Retry));
    match storage_verdict(Err(MachineError::Busy), "a", 60) {
        StorageVerdict::Refuse(e) => assert_eq!(e.code(), "busy"),
        _ => panic!("busy retried past the window"),
    }
    match storage_verdict(Err(MachineError::Protocol("x".into())), "a", 0) {
        StorageVerdict::Refuse(e) => assert_eq!(e.code(), "protocol_error"),
        _ => panic!("failure ignored"),
    }
}

#[test]
fn upload_verdicts() {
    assert!(matches!(upload_verdict(Err(MachineError::Busy), 59), UploadVerdict::Retry));
    assert!(matches!(upload_verdict(Err(MachineError::Busy), 60), UploadVerdict::Refuse(_)));
    assert!(matches!(
        upload_verdict(Err(MachineError::IdentityChanged), 0),
        UploadVerdict::Refuse(ApiError::Machine(MachineError::IdentityChanged))
    ));
    assert_eq!(unsaved_delivery().code(), "delivery_unknown");
}

#[test]
fn cancelled_failures_are_not_recorded() {
    let mut q = JobQueue::new();
    let id = queued(&mut q, "a.pes");
    q.cancel(&id).unwrap();
    assert!(!records_failure(&q.get(&id)));
    assert!(records_failure(&None));
}

#[test]
fn ascii_case_insensitive_names() {
    assert!(text_eq_ignoring_ascii_case("Design.PES", "design.pes"));
    assert!(!text_eq_ignoring_ascii_case("design.pes", "design.pe"));
    assert!(text_eq_ignoring_ascii_case("Ärmel.pes", "Ärmel.PES"));
    assert!(!text_eq_ignoring_ascii_case("Ärmel.pes", "ärmel.pes"));
    assert!(!text_eq_ignoring_ascii_case("a[", "A{"));
}
