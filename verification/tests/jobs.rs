use ember_bridge::error::ApiError;
use ember_bridge::jobs::{millis_from_reading, JobQueue, JobRecord, JobState};
use ember_bridge::machine::{MachineError, MachineIdentity, UploadReceipt};
use ember_bridge::net::IpAddress;

fn ip4() -> IpAddress {
    IpAddress::v4(192, 168, 1, 4)
}

fn device(serial: &str) -> MachineIdentity {
    MachineIdentity {
        ip: ip4(),
        serial: Some(serial.into()),
        manufacturer: "emberconnect".into(),
        model: "link".into(),
        name: None,
        firmware: None,
    }
}

fn enqueue(q: &mut JobQueue) -> JobRecord {
    q.enqueue(
        ip4(),
        "design.pes".into(),
        b"design bytes".len() as u64,
        Some(("emberconnect".into(), "serial-a".into())),
    )
    .unwrap()
}

fn done(q: &mut JobQueue, id: &str) {
    let receipt = UploadReceipt { bytes_sent: 12, stored_as: Some("design.pes".into()) };
    q.complete(id, &receipt).unwrap();
}

#[test]
fn restart_preserves_outcomes_without_replaying_payloads() {
    let mut q = JobQueue::new();
    let queued = enqueue(&mut q);
    let uploading = enqueue(&mut q);
    let finished = enqueue(&mut q);
    q.mark_uploading(&uploading.id, &device("serial-a")).unwrap();
    done(&mut q, &finished.id);
    let saved = q.records().clone();
    let mut q = JobQueue::load(saved);
    assert_eq!(q.get(&queued.id).unwrap().state, JobState::Failed);
    assert_eq!(q.get(&uploading.id).unwrap().state, JobState::NeedsReconciliation);
    assert_eq!(q.get(&finished.id).unwrap().state, JobState::Done);
    assert_eq!(q.pending_count(), 0);
    assert!(!format!("{:?}", q.records()).contains("design bytes"));
    q.resolve(&uploading.id, true).unwrap();
    assert_eq!(
        JobQueue::load(q.records().clone()).get(&uploading.id).unwrap().state,
        JobState::Done
    );
}

#[test]
fn bounded_queue_and_cancellation_are_durable() {
    let mut q = JobQueue::new();
    let first = enqueue(&mut q);
    q.cancel(&first.id).unwrap();
    for _ in 1..32 {
        enqueue(&mut q);
    }
    assert_eq!(
        q.enqueue(first.ip, "extra.pes".into(), 1, None).unwrap_err().code(),
        "queue_full"
    );
    assert_eq!(
        JobQueue::load(q.records().clone()).get(&first.id).unwrap().state,
        JobState::Cancelled
    );
    let second = q.list()[0].clone();
    q.mark_uploading(&second.id, &device("serial-a")).unwrap();
    assert_eq!(q.cancel(&second.id).unwrap_err().code(), "not_cancellable");
}

#[test]
fn byte_budget_and_disk_errors_prevent_admission() {
    let mut q = JobQueue::new();
    let body: u64 = 32 * 1024 * 1024;
    for _ in 0..4 {
        q.enqueue(ip4(), "big.pes".into(), body, None).unwrap();
    }
    assert_eq!(
        q.enqueue(ip4(), "tiny.pes".into(), 1, None).unwrap_err().code(),
        "queue_full"
    );
    assert_eq!(q.list().len(), 4);
}

#[test]
fn restart_at_a_given_time_marks_interruptions() {
    let mut q = JobQueue::new();
    let queued = q.enqueue_at("a".into(), 5, ip4(), "a.pes".into(), 1, None).unwrap();
    let waiting = q.enqueue_at("b".into(), 6, ip4(), "b.pes".into(), 1, None).unwrap();
    q.mark_waiting(&waiting.id).unwrap();
    let q = JobQueue::load_at(q.records().clone(), 77);
    let a = q.get("a").unwrap();
    assert_eq!(a.state, JobState::Failed);
    assert_eq!(a.error_code.as_deref(), Some("interrupted"));
    assert_eq!(
        a.error.as_deref(),
        Some("Bridge stopped before this transfer finished. Check the device before sending again.")
    );
    assert_eq!(a.finished_at_ms, Some(77));
    assert_eq!(a.created_at_ms, 5);
    assert_eq!(q.get("b").unwrap().state, JobState::Failed);
    assert_eq!(queued.state, JobState::Queued);
}

#[test]
fn enqueue_records_the_request() {
    let mut q = JobQueue::new();
    let r = q
        .enqueue_at(
            "id-1".into(),
            42,
            ip4(),
            "x.pes".into(),
            9,
            Some(("test".into(), "intended".into())),
        )
        .unwrap();
    assert_eq!(r.id, "id-1");
    assert_eq!(r.state, JobState::Queued);
    assert_eq!(r.total_bytes, 9);
    assert_eq!(r.sent_bytes, 0);
    assert_eq!(r.created_at_ms, 42);
    assert_eq!(r.manufacturer.as_deref(), Some("test"));
    assert_eq!(r.serial.as_deref(), Some("intended"));
    assert_eq!(r.finished_at_ms, None);
    assert_eq!(q.records().len(), 1);
}

#[test]
fn random_ids_are_hex_and_distinct() {
    let mut q = JobQueue::new();
    let a = q.enqueue(ip4(), "a.pes".into(), 1, None).unwrap();
    let b = q.enqueue(ip4(), "b.pes".into(), 1, None).unwrap();
    assert_eq!(a.id.len(), 32);
    assert!(a.id.chars().all(|c| c.is_ascii_hexdigit() && !c.is_ascii_uppercase()));
    assert_ne!(a.id, b.id);
    assert!(a.created_at_ms > 0);
}

#[test]
fn freed_slots_and_bytes_admit_again() {
    let mut q = JobQueue::new();
    let mut ids = Vec::new();
    for _ in 0..32 {
        ids.push(q.enqueue(ip4(), "a.pes".into(), 1, None).unwrap().id);
    }
    assert!(q.enqueue(ip4(), "b.pes".into(), 1, None).is_err());
    q.upload_received();
    q.upload_released(&ids[0]);
    assert!(q.enqueue(ip4(), "b.pes".into(), 1, None).is_ok());
    let mut q = JobQueue::new();
    assert!(q.enqueue(ip4(), "huge.pes".into(), 128 * 1024 * 1024 + 1, None).is_err());
    assert!(q.enqueue(ip4(), "max.pes".into(), 128 * 1024 * 1024, None).is_ok());
}

#[test]
fn unfinished_transfers_are_capped() {
    let mut q = JobQueue::new();
    for _ in 0..128 {
        let r = q.enqueue(ip4(), "a.pes".into(), 1, None).unwrap();
        q.upload_received();
        q.upload_released(&r.id);
    }
    assert_eq!(
        q.enqueue(ip4(), "b.pes".into(), 1, None).unwrap_err().code(),
        "queue_full"
    );
    let first = q.list().last().unwrap().clone();
    q.cancel(&first.id).unwrap();
    assert!(q.enqueue(ip4(), "b.pes".into(), 1, None).is_ok());
}

#[test]
fn history_keeps_one_hundred_finished_and_every_uncertain() {
    let mut q = JobQueue::new();
    let uncertain = q.enqueue(ip4(), "u.pes".into(), 1, None).unwrap();
    q.upload_received();
    q.upload_released(&uncertain.id);
    q.fail(&uncertain.id, &ApiError::Machine(MachineError::DeliveryUnknown)).unwrap();
    let mut first_done = None;
    for _ in 0..150 {
        let r = q.enqueue(ip4(), "f.pes".into(), 1, None).unwrap();
        q.upload_received();
        q.upload_released(&r.id);
        done(&mut q, &r.id);
        if first_done.is_none() {
            first_done = Some(r.id.clone());
        }
    }
    assert_eq!(q.list().len(), 101);
    assert!(q.get(&first_done.unwrap()).is_none());
    assert_eq!(q.get(&uncertain.id).unwrap().state, JobState::NeedsReconciliation);
    assert_eq!(q.list().iter().filter(|r| r.state.finished()).count(), 100);
}

#[test]
fn confirmation_applies_only_to_uncertain_transfers() {
    let mut q = JobQueue::new();
    let r = q.enqueue_at("x".into(), 1, ip4(), "x.pes".into(), 1, None).unwrap();
    assert_eq!(q.resolve_at(&r.id, true, 2).unwrap_err().code(), "not_uncertain");
    assert_eq!(q.resolve_at("missing", true, 2).unwrap_err().code(), "not_found");
    q.fail_at(&r.id, &ApiError::Machine(MachineError::DeliveryUnknown), 3).unwrap();
    let failed = q.resolve_at(&r.id, false, 4).unwrap();
    assert_eq!(failed.state, JobState::Failed);
    assert_eq!(failed.error_code.as_deref(), Some("user_confirmed"));
    assert_eq!(
        failed.error.as_deref(),
        Some("User checked the device; file was not delivered")
    );
    assert_eq!(failed.finished_at_ms, Some(4));
    assert_eq!(q.pending_count(), 0);
}

#[test]
fn cancel_applies_to_queued_and_waiting_only() {
    let mut q = JobQueue::new();
    let a = q.enqueue_at("a".into(), 1, ip4(), "a.pes".into(), 1, None).unwrap();
    let b = q.enqueue_at("b".into(), 1, ip4(), "b.pes".into(), 1, None).unwrap();
    q.mark_waiting(&b.id).unwrap();
    let ca = q.cancel_at(&a.id, 9).unwrap();
    assert_eq!(ca.state, JobState::Cancelled);
    assert_eq!(ca.finished_at_ms, Some(9));
    assert_eq!(q.cancel_at(&b.id, 9).unwrap().state, JobState::Cancelled);
    assert_eq!(q.cancel_at(&a.id, 9).unwrap_err().code(), "not_cancellable");
    assert_eq!(q.cancel_at("c", 9).unwrap_err().code(), "not_found");
    assert_eq!(q.mark_uploading(&a.id, &device("s")).unwrap_err().code(), "cancelled");
    assert_eq!(q.mark_waiting_unless_cancelled(&a.id).unwrap().state, JobState::Cancelled);
}

#[test]
fn worker_records_outcomes() {
    let mut q = JobQueue::new();
    let r = q.enqueue_at("r".into(), 1, ip4(), "r.pes".into(), 10, None).unwrap();
    assert_eq!(q.mark_waiting_unless_cancelled(&r.id).unwrap().state, JobState::Waiting);
    let up = q.mark_uploading(&r.id, &device("serial-b")).unwrap();
    assert_eq!(up.state, JobState::Uploading);
    assert_eq!(up.serial.as_deref(), Some("serial-b"));
    assert_eq!(up.manufacturer.as_deref(), Some("emberconnect"));
    q.record_progress(&r.id, 5);
    assert_eq!(q.get(&r.id).unwrap().sent_bytes, 5);
    q.fail_closed(&r.id);
    let held = q.get(&r.id).unwrap();
    assert_eq!(held.state, JobState::NeedsReconciliation);
    assert_eq!(held.error.as_deref(), Some("Could not save the outcome. Check the device."));
    let s = q.enqueue_at("s".into(), 1, ip4(), "s.pes".into(), 10, None).unwrap();
    let failed = q.fail_at(&s.id, &ApiError::Machine(MachineError::FileExists), 8).unwrap();
    assert_eq!(failed.state, JobState::Failed);
    assert_eq!(failed.error_code.as_deref(), Some("file_exists"));
    let t = q.enqueue_at("t".into(), 1, ip4(), "t.pes".into(), 10, None).unwrap();
    let receipt = UploadReceipt { bytes_sent: 10, stored_as: Some("T.PES".into()) };
    let ok = q.complete_at(&t.id, &receipt, 12).unwrap();
    assert_eq!(ok.state, JobState::Done);
    assert_eq!(ok.sent_bytes, 10);
    assert_eq!(ok.stored_as.as_deref(), Some("T.PES"));
    assert_eq!(ok.finished_at_ms, Some(12));
}

#[test]
fn list_is_newest_first() {
    let mut q = JobQueue::new();
    q.enqueue_at("1".into(), 1, ip4(), "a".into(), 1, None).unwrap();
    q.enqueue_at("2".into(), 1, ip4(), "b".into(), 1, None).unwrap();
    q.enqueue_at("3".into(), 1, ip4(), "c".into(), 1, None).unwrap();
    let ids: Vec<String> = q.list().into_iter().map(|r| r.id).collect();
    assert_eq!(ids, vec!["3", "2", "1"]);
    assert_eq!(q.pending_count(), 3);
}

#[test]
fn uncertain_transfer_blocks_its_device() {
    let mut q = JobQueue::new();
    let r = q
        .enqueue_at(
            "u".into(),
            1,
            IpAddress::v4(192, 168, 1, 7),
            "u.pes".into(),
            1,
            Some(("emberconnect".into(), "serial-a".into())),
        )
        .unwrap();
    assert!(!q.is_blocked(&device("serial-a")));
    q.fail_at(&r.id, &ApiError::Machine(MachineError::DeliveryUnknown), 2).unwrap();
    assert!(q.is_blocked(&device("serial-a")));
    assert!(!q.is_blocked(&device("serial-z")));
    let mut moved = device("serial-z");
    moved.ip = IpAddress::v4(192, 168, 1, 7);
    assert!(q.is_blocked(&moved));
}

#[test]
fn error_codes_and_messages() {
    let cases = [
        (ApiError::NotFound, "not_found", "Unknown transfer"),
        (
            ApiError::QueueFull,
            "queue_full",
            "The transfer queue is full. Wait for transfers to finish.",
        ),
        (
            ApiError::NotCancellable,
            "not_cancellable",
            "Only queued or waiting transfers can be cancelled.",
        ),
        (ApiError::NotUncertain, "not_uncertain", "This transfer does not need confirmation."),
        (ApiError::Cancelled, "cancelled", "Transfer cancelled"),
        (
            ApiError::PreviousDeliveryUnknown,
            "previous_delivery_unknown",
            "Check and resolve the earlier uncertain transfer on this device first.",
        ),
        (ApiError::Internal("disk full".into()), "internal", "disk full"),
        (ApiError::Machine(MachineError::IdentityChanged), "identity_changed", ""),
        (ApiError::Machine(MachineError::DeliveryUnknown), "delivery_unknown", ""),
        (ApiError::Machine(MachineError::FileExists), "file_exists", ""),
        (ApiError::Machine(MachineError::Busy), "busy", ""),
        (
            ApiError::Machine(MachineError::Unreachable(ip4())),
            "unreachable",
            "No supported machine responds at 192.168.1.4",
        ),
        (ApiError::OutOfOrder, "internal", "The upload worker received an unexpected step."),
        (ApiError::Machine(MachineError::Protocol("bad".into())), "protocol_error", "bad"),
    ];
    for (e, code, message) in cases {
        assert_eq!(e.code(), code);
        assert!(!e.message().is_empty());
        if !message.is_empty() {
            assert_eq!(e.message(), message);
        }
        assert_eq!(e.clone().code(), code);
    }
}

#[test]
fn clock_readings_become_milliseconds() {
    assert_eq!(millis_from_reading(None), 0);
    assert_eq!(millis_from_reading(Some(1_700_000_000_000)), 1_700_000_000_000);
    assert_eq!(millis_from_reading(Some((1u128 << 64) + 3)), 3);
}

#[test]
fn restart_prunes_only_the_oldest_finished() {
    let build = |cancel_first: bool| {
        let mut q = JobQueue::new();
        let mut n = 0;
        let mut next = |q: &mut JobQueue| {
            n += 1;
            let id = format!("r{n}");
            q.enqueue_at(id.clone(), n, ip4(), "f.pes".into(), 1, None).unwrap();
            q.upload_received();
            q.upload_released(&id);
            id
        };
        let mut cancelled = String::new();
        if cancel_first {
            cancelled = next(&mut q);
            q.cancel_at(&cancelled, 1).unwrap();
        }
        for _ in 0..99 {
            let id = next(&mut q);
            let receipt = UploadReceipt { bytes_sent: 1, stored_as: None };
            q.complete_at(&id, &receipt, 2).unwrap();
        }
        if !cancel_first {
            cancelled = next(&mut q);
            q.cancel_at(&cancelled, 1).unwrap();
        }
        for _ in 0..5 {
            next(&mut q);
        }
        (q, cancelled)
    };
    let (q, newest) = build(false);
    let restarted = JobQueue::load_at(q.records().clone(), 9);
    assert_eq!(restarted.list().len(), 100);
    assert_eq!(restarted.get(&newest).unwrap().state, JobState::Cancelled);
    let (q, oldest) = build(true);
    let restarted = JobQueue::load_at(q.records().clone(), 9);
    assert!(restarted.get(&oldest).is_none());
    assert_eq!(restarted.pending_count(), 0);
}

#[test]
fn bytes_are_released_once_per_transfer() {
    let mut q = JobQueue::new();
    let body: u64 = 64 * 1024 * 1024;
    let a = q.enqueue(ip4(), "a.pes".into(), body, None).unwrap();
    let b = q.enqueue(ip4(), "b.pes".into(), body, None).unwrap();
    assert!(q.enqueue(ip4(), "c.pes".into(), 1, None).is_err());
    q.upload_released(&a.id);
    q.upload_released(&a.id);
    q.upload_released("unknown");
    assert!(q.enqueue(ip4(), "c.pes".into(), body, None).is_ok());
    assert!(q.enqueue(ip4(), "d.pes".into(), 1, None).is_err());
    q.upload_released(&b.id);
    assert!(q.enqueue(ip4(), "d.pes".into(), 1, None).is_ok());
}
