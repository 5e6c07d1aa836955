use ember_bridge::identity::{
    addresses_changed, plan_resolve, record_identity, refresh_addresses, same_device,
    Resolution, ResolveAction, ResolveEvent, SavedMachine,
};
use ember_bridge::machine::{MachineCapabilities, MachineError, MachineIdentity, MachineInfo};
use ember_bridge::net::{is_local_network_ip, IpAddress};

fn ip(last: u8) -> IpAddress {
    IpAddress::v4(192, 168, 1, last)
}

fn info(at: IpAddress, serial: &str) -> MachineInfo {
    MachineInfo {
        identity: MachineIdentity {
            ip: at,
            serial: Some(serial.into()),
            manufacturer: "test".into(),
            model: "test".into(),
            name: None,
            firmware: None,
        },
        capabilities: MachineCapabilities {
            max_file_bytes: None,
            can_delete_files: true,
            overwrites_by_name: true,
        },
    }
}

fn saved() -> Vec<SavedMachine> {
    vec![SavedMachine {
        ip: ip(4),
        nickname: Some("Sewing room".into()),
        manufacturer: Some("test".into()),
        serial: Some("intended".into()),
        previous_ips: vec![],
    }]
}

/// Runs resolution against simulated devices, as the app does against
/// the network.
fn resolve(
    machines: &mut Vec<SavedMachine>,
    devices: &[(IpAddress, &str)],
    at: IpAddress,
    expected: Option<(String, String)>,
) -> Result<MachineInfo, MachineError> {
    let plan = plan_resolve(machines, at, expected);
    let target = plan.target;
    let (mut resolution, mut action) = Resolution::start(plan);
    loop {
        let event = match action {
            ResolveAction::Probe { ip, .. } | ResolveAction::ProbeCandidate { ip, .. } => {
                ResolveEvent::Probed(Ok(devices
                    .iter()
                    .find(|d| d.0 == ip)
                    .map(|d| info(d.0, d.1))))
            }
            ResolveAction::Discover { .. } => {
                ResolveEvent::Discovered(devices.iter().map(|d| info(d.0, d.1)).collect())
            }
            ResolveAction::Accept { info, record_identity: record, rediscovered } => {
                if record {
                    record_identity(machines, target, &info);
                }
                if let Some(found) = rediscovered {
                    if addresses_changed(machines, &found) {
                        refresh_addresses(machines, &found);
                    }
                }
                return Ok(info);
            }
            ResolveAction::Refuse(e) => return Err(e),
        };
        let (next, next_action) = resolution.step(event);
        resolution = next;
        action = next_action;
    }
}

#[test]
fn moved_device_is_found_without_trusting_the_old_address() {
    let mut machines = saved();
    let devices = [(ip(4), "stranger"), (ip(8), "intended")];
    let found = resolve(&mut machines, &devices, ip(4), None).unwrap();
    assert_eq!(found.identity.serial.as_deref(), Some("intended"));
    let saved = machines.remove(0);
    assert_eq!(saved.ip, ip(8));
    assert_eq!(saved.nickname.as_deref(), Some("Sewing room"));
    assert_eq!(saved.previous_ips[0], ip(4));
}

#[test]
fn changed_or_ambiguous_identity_is_refused() {
    let mut machines = saved();
    let mut devices = vec![(ip(4), "stranger")];
    assert!(matches!(
        resolve(&mut machines, &devices, ip(4), None),
        Err(MachineError::IdentityChanged)
    ));
    devices.extend([(ip(8), "intended"), (ip(9), "intended")]);
    assert!(matches!(
        resolve(&mut machines, &devices, ip(4), None),
        Err(MachineError::IdentityChanged)
    ));
    assert_eq!(machines[0].ip, ip(4));
}

#[test]
fn unknown_address_without_answer_is_unreachable() {
    let mut machines = saved();
    assert_eq!(
        resolve(&mut machines, &[], ip(20), None).unwrap_err().code(),
        "unreachable"
    );
}

#[test]
fn unsaved_machine_is_accepted_as_it_answers() {
    let mut machines = Vec::new();
    let found = resolve(&mut machines, &[(ip(30), "anyone")], ip(30), None).unwrap();
    assert_eq!(found.identity.serial.as_deref(), Some("anyone"));
}

#[test]
fn saved_machine_without_serial_learns_it() {
    let mut machines = vec![SavedMachine {
        ip: ip(5),
        nickname: None,
        manufacturer: None,
        serial: None,
        previous_ips: vec![],
    }];
    resolve(&mut machines, &[(ip(5), "learned")], ip(5), None).unwrap();
    assert_eq!(machines[0].serial.as_deref(), Some("learned"));
    assert_eq!(machines[0].manufacturer.as_deref(), Some("test"));
}

#[test]
fn old_alias_leads_to_the_current_address() {
    let mut machines = saved();
    machines[0].ip = ip(8);
    machines[0].previous_ips = vec![ip(4)];
    let plan = plan_resolve(&machines, ip(4), None);
    assert_eq!(plan.target, ip(8));
    assert!(!plan.record_identity);
    let found = resolve(&mut machines, &[(ip(8), "intended")], ip(4), None).unwrap();
    assert_eq!(found.identity.ip, ip(8));
}

#[test]
fn current_address_wins_over_an_alias() {
    let mut machines = saved();
    machines.push(SavedMachine {
        ip: ip(9),
        nickname: Some("Other".into()),
        manufacturer: Some("test".into()),
        serial: Some("other".into()),
        previous_ips: vec![ip(4)],
    });
    machines.swap(0, 1);
    let plan = plan_resolve(&machines, ip(4), None);
    assert_eq!(plan.target, ip(4));
    assert_eq!(plan.expected, Some(("test".to_string(), "intended".to_string())));
}

#[test]
fn caller_identity_overrides_the_saved_one() {
    let mut machines = saved();
    let devices = [(ip(4), "caller")];
    let found =
        resolve(&mut machines, &devices, ip(4), Some(("test".into(), "caller".into()))).unwrap();
    assert_eq!(found.identity.serial.as_deref(), Some("caller"));
}

#[test]
fn same_device_needs_local_address_manufacturer_and_serial() {
    assert!(same_device(&info(ip(4), "a"), "test", "a"));
    assert!(!same_device(&info(ip(4), "a"), "test", "b"));
    assert!(!same_device(&info(ip(4), "a"), "other", "a"));
    assert!(!same_device(&info(IpAddress::v4(8, 8, 8, 8), "a"), "test", "a"));
    let mut no_serial = info(ip(4), "a");
    no_serial.identity.serial = None;
    assert!(!same_device(&no_serial, "test", "a"));
}

#[test]
fn local_network_ranges() {
    assert!(is_local_network_ip(IpAddress::v4(10, 1, 2, 3)));
    assert!(is_local_network_ip(IpAddress::v4(172, 16, 0, 1)));
    assert!(is_local_network_ip(IpAddress::v4(172, 31, 255, 255)));
    assert!(!is_local_network_ip(IpAddress::v4(172, 32, 0, 1)));
    assert!(is_local_network_ip(IpAddress::v4(192, 168, 0, 1)));
    assert!(is_local_network_ip(IpAddress::v4(169, 254, 1, 1)));
    assert!(!is_local_network_ip(IpAddress::v4(8, 8, 8, 8)));
    assert!(!is_local_network_ip(IpAddress::v4(127, 0, 0, 1)));
    assert!(is_local_network_ip(IpAddress::V6(0xfd00u128 << 112)));
    assert!(is_local_network_ip(IpAddress::V6(0xfe80u128 << 112)));
    assert!(!is_local_network_ip(IpAddress::V6(0x2001u128 << 112)));
    assert!(!is_local_network_ip(IpAddress::V6(1)));
}

#[test]
fn refresh_keeps_a_bounded_history_without_the_current_address() {
    let mut machines = saved();
    machines[0].previous_ips = (10..18).map(ip).collect();
    machines[0].previous_ips[2] = ip(8);
    let found = vec![info(ip(8), "intended")];
    assert!(addresses_changed(&machines, &found));
    refresh_addresses(&mut machines, &found);
    let m = &machines[0];
    assert_eq!(m.ip, ip(8));
    assert_eq!(m.previous_ips.len(), 8);
    assert!(!m.previous_ips.contains(&ip(8)));
    assert_eq!(*m.previous_ips.last().unwrap(), ip(4));
    assert_eq!(m.previous_ips[0], ip(10));
    let again = vec![info(ip(8), "intended")];
    assert!(!addresses_changed(&machines, &again));
}

#[test]
fn refresh_ignores_ambiguous_and_unchanged_devices() {
    let mut machines = saved();
    let found = vec![info(ip(8), "intended"), info(ip(9), "intended")];
    assert!(addresses_changed(&machines, &found));
    refresh_addresses(&mut machines, &found);
    assert_eq!(machines[0].ip, ip(4));
    assert!(machines[0].previous_ips.is_empty());
    let same = vec![info(ip(4), "intended")];
    assert!(!addresses_changed(&machines, &same));
}
