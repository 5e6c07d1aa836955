//! Resolve saved identities without trusting a stale address.
use vstd::prelude::*;
use crate::machine::{MachineError, MachineInfo, copy_opt};
use crate::net::{IpAddress, is_local_network, is_local_network_ip};
use crate::text::{text_eq, opt_text};

verus! {

/// The machine described by `a` is on the local network and reports the
/// given manufacturer and serial number.
pub open spec fn is_same_device(a: MachineInfo, manufacturer: Seq<char>, serial: Seq<char>) -> bool {
    &&& is_local_network(a.identity.ip)
    &&& a.identity.manufacturer@ == manufacturer
    &&& a.identity.serial matches Some(s) && s@ == serial
}

/// Whether `a` is the device with this manufacturer and serial number.
pub fn same_device(a: &MachineInfo, manufacturer: &str, serial: &str) -> (r: bool)
    ensures
        r == is_same_device(*a, manufacturer@, serial@),
{
    if !is_local_network_ip(a.identity.ip) {
        return false;
    }
    if !text_eq(a.identity.manufacturer.as_str(), manufacturer) {
        return false;
    }
    match &a.identity.serial {
        Some(s) => text_eq(s.as_str(), serial),
        None => false,
    }
}

/// The first `i` below `n` where `p` holds, if any.
pub open spec fn first_where(n: int, p: spec_fn(int) -> bool) -> Option<int> {
    if exists|i: int| 0 <= i < n && #[trigger] p(i) && forall|j: int| 0 <= j < i ==> !#[trigger] p(j) {
        Some(choose|i: int| 0 <= i < n && #[trigger] p(i) && forall|j: int| 0 <= j < i ==> !#[trigger] p(j))
    } else {
        None
    }
}

proof fn lemma_first_where(n: int, p: spec_fn(int) -> bool, i: int)
    requires
        0 <= i < n,
        p(i),
        forall|j: int| 0 <= j < i ==> !#[trigger] p(j),
    ensures
        first_where(n, p) == Some(i),
{
    let k = choose|k: int| 0 <= k < n && #[trigger] p(k) && forall|j: int| 0 <= j < k ==> !#[trigger] p(j);
    assert(0 <= k < n && p(k) && forall|j: int| 0 <= j < k ==> !#[trigger] p(j));
    if k < i {
        assert(!p(k));
    } else if i < k {
        assert(!p(i));
    }
}

proof fn lemma_first_where_none(n: int, p: spec_fn(int) -> bool)
    requires
        forall|j: int| 0 <= j < n ==> !#[trigger] p(j),
    ensures
        first_where(n, p) is None,
{
}

/// How many of the found machines are the device.
pub open spec fn count_matches(found: Seq<MachineInfo>, manufacturer: Seq<char>, serial: Seq<char>) -> nat
    decreases found.len(),
{
    if found.len() == 0 {
        0
    } else {
        (if is_same_device(found[0], manufacturer, serial) {
            1nat
        } else {
            0nat
        }) + count_matches(found.drop_first(), manufacturer, serial)
    }
}

/// The one found machine that is the device, where exactly one is.
pub open spec fn sole_match(found: Seq<MachineInfo>, manufacturer: Seq<char>, serial: Seq<char>) -> Option<
    MachineInfo,
> {
    if count_matches(found, manufacturer, serial) == 1 {
        match first_where(found.len() as int, |i: int| is_same_device(found[i], manufacturer, serial)) {
            Some(i) => Some(found[i]),
            None => None,
        }
    } else {
        None
    }
}

/// The position of the one found machine that is the device, where exactly
/// one is.
fn find_sole_match(found: &Vec<MachineInfo>, manufacturer: &str, serial: &str) -> (r: Option<usize>)
    ensures
        match r {
            Some(i) => i < found@.len() && sole_match(found@, manufacturer@, serial@) == Some(
                found@[i as int],
            ),
            None => sole_match(found@, manufacturer@, serial@) is None,
        },
{
    let ghost s = found@;
    let ghost p = |i: int| is_same_device(s[i], manufacturer@, serial@);
    let n = found.len();
    let mut count: usize = 0;
    let mut first: Option<usize> = None;
    let mut i: usize = 0;
    assert(s.subrange(0, n as int) =~= s);
    while i < n
        invariant
            n == s.len(),
            s == found@,
            p == (|i: int| is_same_device(s[i], manufacturer@, serial@)),
            i <= n,
            count <= i,
            count as nat + count_matches(s.subrange(i as int, n as int), manufacturer@, serial@)
                == count_matches(s, manufacturer@, serial@),
            (count == 0) == (first is None),
            match first {
                Some(k) => k < i && p(k as int) && forall|j: int| 0 <= j < k ==> !#[trigger] p(j),
                None => forall|j: int| 0 <= j < i ==> !#[trigger] p(j),
            },
        decreases n - i,
    {
        proof {
            assert(s.subrange(i as int, n as int).drop_first() =~= s.subrange(i + 1, n as int));
        }
        if same_device(&found[i], manufacturer, serial) {
            if first.is_none() {
                first = Some(i);
            }
            count = count + 1;
        }
        i = i + 1;
    }
    proof {
        assert(s.subrange(n as int, n as int).len() == 0);
    }
    if count == 1 {
        let k = first.unwrap();
        proof {
            lemma_first_where(n as int, p, k as int);
        }
        Some(k)
    } else {
        None
    }
}

/// A machine the user saved: where it was last seen, who it is, and the
/// addresses it had before.
#[derive(Debug)]
pub struct SavedMachine {
    pub ip: IpAddress,
    pub nickname: Option<String>,
    pub manufacturer: Option<String>,
    pub serial: Option<String>,
    pub previous_ips: Vec<IpAddress>,
}

impl Clone for SavedMachine {
    fn clone(&self) -> (r: Self)
        ensures
            r@ == self@,
    {
        let previous_ips = self.previous_ips.clone();
        assert(previous_ips@ =~= self.previous_ips@);
        SavedMachine {
            ip: self.ip,
            nickname: copy_opt(&self.nickname),
            manufacturer: copy_opt(&self.manufacturer),
            serial: copy_opt(&self.serial),
            previous_ips,
        }
    }
}

/// A saved machine with its texts as character sequences.
pub struct SavedMachineView {
    pub ip: IpAddress,
    pub nickname: Option<Seq<char>>,
    pub manufacturer: Option<Seq<char>>,
    pub serial: Option<Seq<char>>,
    pub previous_ips: Seq<IpAddress>,
}

impl View for SavedMachine {
    type V = SavedMachineView;

    open spec fn view(&self) -> SavedMachineView {
        SavedMachineView {
            ip: self.ip,
            nickname: opt_text(self.nickname),
            manufacturer: opt_text(self.manufacturer),
            serial: opt_text(self.serial),
            previous_ips: self.previous_ips@,
        }
    }
}

/// The saved machines, as views.
pub open spec fn saved_views(v: Seq<SavedMachine>) -> Seq<SavedMachineView> {
    v.map_values(|m: SavedMachine| m@)
}

/// The manufacturer a saved machine names, the empty text where none.
pub open spec fn manufacturer_or_empty(m: SavedMachineView) -> Seq<char> {
    match m.manufacturer {
        Some(s) => s,
        None => Seq::empty(),
    }
}

/// How many earlier addresses a saved machine remembers.
pub const KEPT_PREVIOUS_IPS: usize = 8;

/// Addresses other than `x`.
pub open spec fn other_than(x: IpAddress) -> spec_fn(IpAddress) -> bool {
    |p: IpAddress| p != x
}

/// The earlier addresses after a move from `old_ip` to `new_ip`: `new_ip`
/// leaves the list, `old_ip` joins it at the end, and only the last
/// [`KEPT_PREVIOUS_IPS`] are kept.
pub open spec fn moved_history(
    previous: Seq<IpAddress>,
    old_ip: IpAddress,
    new_ip: IpAddress,
) -> Seq<IpAddress> {
    let v = previous.filter(other_than(new_ip)).push(old_ip);
    if v.len() > KEPT_PREVIOUS_IPS {
        v.drop_first()
    } else {
        v
    }
}

/// A saved machine after discovery found `found`: where exactly one found
/// machine is the saved device (by serial number and manufacturer) and it
/// answers at another address, the machine moves there.
pub open spec fn relocated(m: SavedMachineView, found: Seq<MachineInfo>) -> SavedMachineView {
    match m.serial {
        Some(serial) => match sole_match(found, manufacturer_or_empty(m), serial) {
            Some(d) => if d.identity.ip != m.ip {
                SavedMachineView {
                    ip: d.identity.ip,
                    previous_ips: moved_history(m.previous_ips, m.ip, d.identity.ip),
                    ..m
                }
            } else {
                m
            },
            None => m,
        },
        None => m,
    }
}

/// Some saved device with a serial number was found answering at another
/// address.
pub open spec fn any_moved(machines: Seq<SavedMachineView>, found: Seq<MachineInfo>) -> bool {
    exists|i: int, j: int|
        0 <= i < machines.len() && 0 <= j < found.len() && #[trigger] moved_to(machines[i], found[j])
}

/// The found machine is the saved device, answering at another address.
pub open spec fn moved_to(m: SavedMachineView, d: MachineInfo) -> bool {
    match m.serial {
        Some(serial) => is_same_device(d, manufacturer_or_empty(m), serial) && d.identity.ip != m.ip,
        None => false,
    }
}

fn manufacturer_text(m: &SavedMachine) -> (r: &str)
    ensures
        r@ == manufacturer_or_empty(m@),
{
    match &m.manufacturer {
        Some(s) => s.as_str(),
        None => {
            proof {
                reveal_strlit("");
            }
            assert(""@ =~= Seq::<char>::empty());
            ""
        },
    }
}

/// Whether discovery found a saved device at a new address, so that the
/// saved machines must be refreshed.
pub fn addresses_changed(machines: &Vec<SavedMachine>, found: &Vec<MachineInfo>) -> (r: bool)
    ensures
        r == any_moved(saved_views(machines@), found@),
{
    let ghost ms = saved_views(machines@);
    let n = machines.len();
    let mut i: usize = 0;
    while i < n
        invariant
            n == machines@.len(),
            ms == saved_views(machines@),
            i <= n,
            forall|a: int, b: int|
                0 <= a < i && 0 <= b < found@.len() ==> !#[trigger] moved_to(ms[a], found@[b]),
        decreases n - i,
    {
        let m = &machines[i];
        assert(ms[i as int] == m@);
        if let Some(serial) = &m.serial {
            let manufacturer = manufacturer_text(m);
            let k = found.len();
            let mut j: usize = 0;
            while j < k
                invariant
                    k == found@.len(),
                    n == machines@.len(),
                    ms == saved_views(machines@),
                    i < n,
                    ms[i as int] == m@,
                    m.serial == Some(*serial),
                    manufacturer@ == manufacturer_or_empty(m@),
                    j <= k,
                    forall|b: int| 0 <= b < j ==> !#[trigger] moved_to(ms[i as int], found@[b]),
                decreases k - j,
            {
                if same_device(&found[j], manufacturer, serial.as_str())
                    && found[j].identity.ip != m.ip {
                    assert(moved_to(ms[i as int], found@[j as int]));
                    return true;
                }
                j = j + 1;
            }
        }
        i = i + 1;
    }
    false
}

/// Moves every saved device that discovery found, unambiguously, at a new
/// address; see [`relocated`].
pub fn refresh_addresses(machines: &mut Vec<SavedMachine>, found: &Vec<MachineInfo>)
    ensures
        saved_views(final(machines)@) == saved_views(old(machines)@).map_values(
            |m: SavedMachineView| relocated(m, found@),
        ),
{
    let ghost ms = saved_views(machines@);
    let n = machines.len();
    let mut i: usize = 0;
    while i < n
        invariant
            n == machines@.len(),
            ms.len() == n,
            i <= n,
            forall|j: int| 0 <= j < i ==> #[trigger] machines@[j]@ == relocated(ms[j], found@),
            forall|j: int| i <= j < n ==> #[trigger] machines@[j]@ == ms[j],
        decreases n - i,
    {
        assert(machines@[i as int]@ == ms[i as int]);
        let moved_to: Option<IpAddress> = match &machines[i].serial {
            Some(serial) => {
                let manufacturer = manufacturer_text(&machines[i]);
                match find_sole_match(found, manufacturer, serial.as_str()) {
                    Some(k) => {
                        if found[k].identity.ip != machines[i].ip {
                            Some(found[k].identity.ip)
                        } else {
                            None
                        }
                    },
                    None => None,
                }
            },
            None => None,
        };
        if let Some(new_ip) = moved_to {
            let old = &machines[i];
            let ghost prev = old.previous_ips@;
            let mut history: Vec<IpAddress> = Vec::new();
            let mut j: usize = 0;
            let p = old.previous_ips.len();
            while j < p
                invariant
                    p == prev.len(),
                    prev == old.previous_ips@,
                    j <= p,
                    history@ == prev.take(j as int).filter(other_than(new_ip)),
                decreases p - j,
            {
                proof {
                    reveal(Seq::filter);
                    assert(prev.take(j + 1).drop_last() =~= prev.take(j as int));
                    assert(prev.take(j + 1).last() == prev[j as int]);
                }
                if old.previous_ips[j] != new_ip {
                    history.push(old.previous_ips[j]);
                }
                j = j + 1;
            }
            assert(prev.take(p as int) =~= prev);
            history.push(old.ip);
            if history.len() > KEPT_PREVIOUS_IPS {
                history.remove(0);
            }
            let updated = SavedMachine {
                ip: new_ip,
                nickname: copy_opt(&old.nickname),
                manufacturer: copy_opt(&old.manufacturer),
                serial: copy_opt(&old.serial),
                previous_ips: history,
            };
            assert(updated@.previous_ips =~= moved_history(prev, ms[i as int].ip, new_ip));
            machines.set(i, updated);
        }
        assert(machines@[i as int]@ == relocated(ms[i as int], found@));
        i = i + 1;
    }
    assert(saved_views(machines@) =~= ms.map_values(|m: SavedMachineView| relocated(m, found@)));
}

/// The saved machine an address belongs to: the one that currently has it,
/// else the first that had it before. A current address wins over an old
/// alias reused by another saved device.
pub open spec fn saved_for(machines: Seq<SavedMachine>, ip: IpAddress) -> Option<int> {
    match first_where(machines.len() as int, |i: int| machines[i].ip == ip) {
        Some(i) => Some(i),
        None => first_where(
            machines.len() as int,
            |i: int| machines[i].previous_ips@.contains(ip),
        ),
    }
}

/// The identity a saved machine records, when it records both parts.
pub open spec fn saved_identity(m: SavedMachine) -> Option<(String, String)> {
    match (m.manufacturer, m.serial) {
        (Some(a), Some(b)) => Some((a, b)),
        _ => None,
    }
}

/// What identity resolution starts from.
#[derive(Debug)]
pub struct ResolvePlan {
    /// The manufacturer and serial number the machine must report, if known.
    pub expected: Option<(String, String)>,
    /// The address probed first.
    pub target: IpAddress,
    /// Whether the saved machine at the target lacks a serial number, to be
    /// filled in from what the machine reports.
    pub record_identity: bool,
}

/// The plan for reaching the machine known by `ip`, expecting `expected`
/// where the caller names an identity and else the saved one.
pub open spec fn plan_for(
    machines: Seq<SavedMachine>,
    ip: IpAddress,
    expected: Option<(String, String)>,
) -> ResolvePlan {
    let saved = saved_for(machines, ip);
    ResolvePlan {
        expected: match expected {
            Some(e) => Some(e),
            None => match saved {
                Some(i) => saved_identity(machines[i]),
                None => None,
            },
        },
        target: match saved {
            Some(i) => machines[i].ip,
            None => ip,
        },
        record_identity: match saved {
            Some(i) => machines[i].serial is None,
            None => false,
        },
    }
}

/// Where resolution stands.
#[derive(Debug)]
pub enum ResolvePhase {
    /// The target was probed.
    Direct,
    /// Machines of the expected manufacturer are being discovered.
    Discovering,
    /// The one discovered candidate is probed again before use.
    Confirming(IpAddress, Vec<MachineInfo>),
    /// Resolution is over.
    Finished,
}

/// Identity resolution in progress.
#[derive(Debug)]
pub struct Resolution {
    pub plan: ResolvePlan,
    pub phase: ResolvePhase,
}

/// What the outside reports back.
#[derive(Debug)]
pub enum ResolveEvent {
    /// The outcome of a probe: the machine's report, or none where no
    /// supported machine answered.
    Probed(Result<Option<MachineInfo>, MachineError>),
    /// No backend handles the expected manufacturer.
    NoBackend,
    /// The machines that discovery found.
    Discovered(Vec<MachineInfo>),
}

/// What the outside is to do next.
#[derive(Debug)]
pub enum ResolveAction {
    /// Probe `ip`, with the backend of `manufacturer` where one is named and
    /// available, else with whichever backend recognises the machine.
    Probe { ip: IpAddress, manufacturer: Option<String> },
    /// Discover the machines of `manufacturer`.
    Discover { manufacturer: String },
    /// Probe the candidate at `ip` with the backend of `manufacturer`.
    ProbeCandidate { manufacturer: String, ip: IpAddress },
    /// The machine is `info`. Where `record_identity`, the saved machine at
    /// the target learns its identity; where `rediscovered`, the saved
    /// machines are refreshed from what discovery found.
    Accept { info: MachineInfo, record_identity: bool, rediscovered: Option<Vec<MachineInfo>> },
    /// The machine cannot be used.
    Refuse(MachineError),
}

/// A machine's report is acceptable when no identity is expected or it is
/// the expected device.
pub open spec fn acceptable(expected: Option<(String, String)>, info: MachineInfo) -> bool {
    match expected {
        Some((m, s)) => is_same_device(info, m@, s@),
        None => true,
    }
}

/// How resolution begins: probe the target.
pub open spec fn start_spec(plan: ResolvePlan) -> (Resolution, ResolveAction) {
    (
        Resolution { plan, phase: ResolvePhase::Direct },
        ResolveAction::Probe {
            ip: plan.target,
            manufacturer: match plan.expected {
                Some((m, _)) => Some(m),
                None => None,
            },
        },
    )
}

/// One step of resolution: the next state and action after `event`.
pub open spec fn step_spec(r: Resolution, event: ResolveEvent) -> (Resolution, ResolveAction) {
    let plan = r.plan;
    let finish = |a: ResolveAction| (Resolution { plan, phase: ResolvePhase::Finished }, a);
    match r.phase {
        ResolvePhase::Direct => {
            let accepted = match event {
                ResolveEvent::Probed(Ok(Some(info))) => if acceptable(plan.expected, info) {
                    Some(info)
                } else {
                    None
                },
                _ => None,
            };
            match accepted {
                Some(info) => finish(
                    ResolveAction::Accept {
                        info,
                        record_identity: plan.record_identity,
                        rediscovered: None,
                    },
                ),
                None => match plan.expected {
                    Some((m, _)) => (
                        Resolution { plan, phase: ResolvePhase::Discovering },
                        ResolveAction::Discover { manufacturer: m },
                    ),
                    None => finish(ResolveAction::Refuse(MachineError::Unreachable(plan.target))),
                },
            }
        },
        ResolvePhase::Discovering => match (event, plan.expected) {
            (ResolveEvent::Discovered(found), Some((m, s))) => match sole_match(found@, m@, s@) {
                Some(d) => (
                    Resolution {
                        plan,
                        phase: ResolvePhase::Confirming(d.identity.ip, found),
                    },
                    ResolveAction::ProbeCandidate { manufacturer: m, ip: d.identity.ip },
                ),
                None => finish(ResolveAction::Refuse(MachineError::IdentityChanged)),
            },
            _ => finish(ResolveAction::Refuse(MachineError::IdentityChanged)),
        },
        ResolvePhase::Confirming(_, found) => match event {
            ResolveEvent::Probed(Err(e)) => finish(ResolveAction::Refuse(e)),
            ResolveEvent::Probed(Ok(Some(info))) => if plan.expected is Some && acceptable(
                plan.expected,
                info,
            ) {
                finish(
                    ResolveAction::Accept {
                        info,
                        record_identity: false,
                        rediscovered: Some(found),
                    },
                )
            } else {
                finish(ResolveAction::Refuse(MachineError::IdentityChanged))
            },
            _ => finish(ResolveAction::Refuse(MachineError::IdentityChanged)),
        },
        ResolvePhase::Finished => finish(ResolveAction::Refuse(MachineError::IdentityChanged)),
    }
}

fn contains_ip(v: &Vec<IpAddress>, ip: IpAddress) -> (r: bool)
    ensures
        r == v@.contains(ip),
{
    let n = v.len();
    let mut k: usize = 0;
    while k < n
        invariant
            n == v@.len(),
            k <= n,
            forall|t: int| 0 <= t < k ==> v@[t] != ip,
        decreases n - k,
    {
        if v[k] == ip {
            assert(v@[k as int] == ip);
            return true;
        }
        k = k + 1;
    }
    false
}

fn find_saved(machines: &Vec<SavedMachine>, ip: IpAddress) -> (r: Option<usize>)
    ensures
        match r {
            Some(k) => saved_for(machines@, ip) == Some(k as int) && k < machines@.len(),
            None => saved_for(machines@, ip) is None,
        },
{
    let ghost ms = machines@;
    let ghost by_ip = |i: int| ms[i].ip == ip;
    let ghost by_alias = |i: int| ms[i].previous_ips@.contains(ip);
    let n = machines.len();
    let mut i: usize = 0;
    while i < n
        invariant
            n == ms.len(),
            ms == machines@,
            by_ip == (|i: int| ms[i].ip == ip),
            i <= n,
            forall|j: int| 0 <= j < i ==> !#[trigger] by_ip(j),
        decreases n - i,
    {
        if machines[i].ip == ip {
            proof {
                lemma_first_where(n as int, by_ip, i as int);
            }
            return Some(i);
        }
        i = i + 1;
    }
    proof {
        lemma_first_where_none(n as int, by_ip);
    }
    let mut i: usize = 0;
    while i < n
        invariant
            n == ms.len(),
            ms == machines@,
            by_ip == (|i: int| ms[i].ip == ip),
            by_alias == (|i: int| ms[i].previous_ips@.contains(ip)),
            first_where(n as int, by_ip) is None,
            i <= n,
            forall|j: int| 0 <= j < i ==> !#[trigger] by_alias(j),
        decreases n - i,
    {
        if contains_ip(&machines[i].previous_ips, ip) {
            proof {
                lemma_first_where(n as int, by_alias, i as int);
            }
            return Some(i);
        }
        i = i + 1;
    }
    proof {
        lemma_first_where_none(n as int, by_alias);
    }
    None
}

/// The plan for reaching the machine known by `ip`; see [`plan_for`].
pub fn plan_resolve(
    machines: &Vec<SavedMachine>,
    ip: IpAddress,
    expected: Option<(String, String)>,
) -> (r: ResolvePlan)
    ensures
        r == plan_for(machines@, ip, expected),
{
    let saved = find_saved(machines, ip);
    match saved {
        Some(k) => {
            let m = &machines[k];
            let expected = match expected {
                Some(e) => Some(e),
                None => match (&m.manufacturer, &m.serial) {
                    (Some(a), Some(b)) => Some((a.clone(), b.clone())),
                    _ => None,
                },
            };
            ResolvePlan { expected, target: m.ip, record_identity: m.serial.is_none() }
        },
        None => ResolvePlan { expected, target: ip, record_identity: false },
    }
}

impl Resolution {
    /// Begins resolution from a plan: the target is probed first.
    pub fn start(plan: ResolvePlan) -> (r: (Resolution, ResolveAction))
        ensures
            r == start_spec(plan),
    {
        let manufacturer = match &plan.expected {
            Some((m, _)) => Some(m.clone()),
            None => None,
        };
        let ip = plan.target;
        (Resolution { plan, phase: ResolvePhase::Direct }, ResolveAction::Probe { ip, manufacturer })
    }

    /// Takes the outcome of the last action and decides the next one; see
    /// [`step_spec`].
    pub fn step(self, event: ResolveEvent) -> (r: (Resolution, ResolveAction))
        ensures
            r == step_spec(self, event),
    {
        let Resolution { plan, phase } = self;
        match phase {
            ResolvePhase::Direct => {
                if let ResolveEvent::Probed(Ok(Some(info))) = event {
                    let ok = match &plan.expected {
                        Some((m, s)) => same_device(&info, m.as_str(), s.as_str()),
                        None => true,
                    };
                    if ok {
                        let record_identity = plan.record_identity;
                        return (
                            Resolution { plan, phase: ResolvePhase::Finished },
                            ResolveAction::Accept { info, record_identity, rediscovered: None },
                        );
                    }
                }
                match &plan.expected {
                    Some((m, _)) => {
                        let manufacturer = m.clone();
                        (
                            Resolution { plan, phase: ResolvePhase::Discovering },
                            ResolveAction::Discover { manufacturer },
                        )
                    },
                    None => {
                        let target = plan.target;
                        (
                            Resolution { plan, phase: ResolvePhase::Finished },
                            ResolveAction::Refuse(MachineError::Unreachable(target)),
                        )
                    },
                }
            },
            ResolvePhase::Discovering => {
                if let ResolveEvent::Discovered(found) = event {
                    if let Some((m, s)) = &plan.expected {
                        match find_sole_match(&found, m.as_str(), s.as_str()) {
                            Some(k) => {
                                let ip = found[k].identity.ip;
                                let manufacturer = m.clone();
                                return (
                                    Resolution { plan, phase: ResolvePhase::Confirming(ip, found) },
                                    ResolveAction::ProbeCandidate { manufacturer, ip },
                                );
                            },
                            None => {},
                        }
                    }
                }
                (
                    Resolution { plan, phase: ResolvePhase::Finished },
                    ResolveAction::Refuse(MachineError::IdentityChanged),
                )
            },
            ResolvePhase::Confirming(_, found) => {
                match event {
                    ResolveEvent::Probed(Err(e)) => (
                        Resolution { plan, phase: ResolvePhase::Finished },
                        ResolveAction::Refuse(e),
                    ),
                    ResolveEvent::Probed(Ok(Some(info))) => {
                        let ok = match &plan.expected {
                            Some((m, s)) => same_device(&info, m.as_str(), s.as_str()),
                            None => false,
                        };
                        if ok {
                            (
                                Resolution { plan, phase: ResolvePhase::Finished },
                                ResolveAction::Accept {
                                    info,
                                    record_identity: false,
                                    rediscovered: Some(found),
                                },
                            )
                        } else {
                            (
                                Resolution { plan, phase: ResolvePhase::Finished },
                                ResolveAction::Refuse(MachineError::IdentityChanged),
                            )
                        }
                    },
                    _ => (
                        Resolution { plan, phase: ResolvePhase::Finished },
                        ResolveAction::Refuse(MachineError::IdentityChanged),
                    ),
                }
            },
            ResolvePhase::Finished => (
                Resolution { plan, phase: ResolvePhase::Finished },
                ResolveAction::Refuse(MachineError::IdentityChanged),
            ),
        }
    }
}

/// The saved machine at `target` that lacks a serial number learns the
/// identity the machine reported.
pub open spec fn identity_recorded(
    machines: Seq<SavedMachineView>,
    target: IpAddress,
    info: MachineInfo,
) -> Seq<SavedMachineView> {
    match first_where(
        machines.len() as int,
        |i: int| machines[i].ip == target && machines[i].serial is None,
    ) {
        Some(i) => machines.update(
            i,
            SavedMachineView {
                serial: opt_text(info.identity.serial),
                manufacturer: Some(info.identity.manufacturer@),
                ..machines[i]
            },
        ),
        None => machines,
    }
}

/// Fills in the identity of the saved machine at `target` that has no
/// serial number yet; see [`identity_recorded`].
pub fn record_identity(machines: &mut Vec<SavedMachine>, target: IpAddress, info: &MachineInfo)
    ensures
        saved_views(final(machines)@) == identity_recorded(saved_views(old(machines)@), target, *info),
{
    let ghost ms = saved_views(machines@);
    let ghost p = |i: int| ms[i].ip == target && ms[i].serial is None;
    let n = machines.len();
    let mut i: usize = 0;
    while i < n
        invariant
            n == machines@.len(),
            machines@ == old(machines)@,
            ms == saved_views(machines@),
            p == (|i: int| ms[i].ip == target && ms[i].serial is None),
            i <= n,
            forall|j: int| 0 <= j < i ==> !#[trigger] p(j),
        decreases n - i,
    {
        assert(ms[i as int] == machines@[i as int]@);
        if machines[i].ip == target && machines[i].serial.is_none() {
            proof {
                lemma_first_where(n as int, p, i as int);
            }
            let old = &machines[i];
            let updated = SavedMachine {
                ip: old.ip,
                nickname: copy_opt(&old.nickname),
                manufacturer: Some(info.identity.manufacturer.clone()),
                serial: copy_opt(&info.identity.serial),
                previous_ips: old.previous_ips.clone(),
            };
            assert(updated.previous_ips@ =~= old.previous_ips@);
            machines.set(i, updated);
            assert(saved_views(machines@) =~= identity_recorded(ms, target, *info));
            return;
        }
        i = i + 1;
    }
    proof {
        lemma_first_where_none(n as int, p);
    }
}

proof fn lemma_first_where_some(n: int, p: spec_fn(int) -> bool)
    ensures
        first_where(n, p) matches Some(i) ==> 0 <= i < n && p(i) && forall|j: int|
            0 <= j < i ==> !#[trigger] p(j),
{
}

proof fn lemma_first_exists(n: int, p: spec_fn(int) -> bool, i: int)
    requires
        0 <= i < n,
        p(i),
    ensures
        first_where(n, p) is Some,
    decreases i,
{
    if exists|j: int| 0 <= j < i && #[trigger] p(j) {
        let j = choose|j: int| 0 <= j < i && #[trigger] p(j);
        lemma_first_exists(n, p, j);
    } else {
        lemma_first_where(n, p, i);
    }
}

/// A current address wins over an old alias: where some saved machine
/// currently has the address, resolution starts from such a machine.
pub proof fn lemma_current_address_wins(machines: Seq<SavedMachine>, ip: IpAddress, i: int)
    requires
        0 <= i < machines.len(),
        machines[i].ip == ip,
    ensures
        saved_for(machines, ip) matches Some(k) && 0 <= k < machines.len() && machines[k].ip == ip,
{
    let p = |j: int| machines[j].ip == ip;
    lemma_first_exists(machines.len() as int, p, i);
    lemma_first_where_some(machines.len() as int, p);
}

proof fn lemma_filter_subset(v: Seq<IpAddress>, p: spec_fn(IpAddress) -> bool)
    ensures
        forall|k: int| 0 <= k < v.filter(p).len() ==> v.contains(#[trigger] v.filter(p)[k]),
        v.no_duplicates() ==> v.filter(p).no_duplicates(),
    decreases v.len(),
{
    reveal(Seq::filter);
    if v.len() > 0 {
        let d = v.drop_last();
        lemma_filter_subset(d, p);
        let f = d.filter(p);
        assert forall|k: int| 0 <= k < f.len() implies v.contains(#[trigger] f[k]) by {
            let j = choose|j: int| 0 <= j < d.len() && d[j] == f[k];
            assert(v[j] == f[k]);
        }
        if p(v.last()) {
            let g = f.push(v.last());
            assert forall|k: int| 0 <= k < g.len() implies v.contains(#[trigger] g[k]) by {
                if k == f.len() {
                    assert(v[v.len() - 1] == g[k]);
                } else {
                    assert(g[k] == f[k]);
                }
            }
            if v.no_duplicates() {
                assert forall|a: int, b: int| 0 <= a < g.len() && 0 <= b < g.len() && a != b
                    implies g[a] != g[b] by {
                    if a == f.len() || b == f.len() {
                        let k = if a == f.len() {
                            b
                        } else {
                            a
                        };
                        assert(g[k] == f[k]);
                        assert(d.contains(f[k]));
                        let j = choose|j: int| 0 <= j < d.len() && d[j] == f[k];
                        assert(v[j] == d[j]);
                        assert(v[j] != v[v.len() - 1]);
                    } else {
                        assert(g[a] == f[a] && g[b] == f[b]);
                    }
                }
            }
        }
    }
}

/// After a move the earlier addresses exclude the new one, end with the old
/// one, and stay within [`KEPT_PREVIOUS_IPS`] where they were within it; they
/// hold no address twice where they held none twice and did not hold the
/// old address; a machine that did not move is unchanged.
pub proof fn lemma_relocation(m: SavedMachineView, found: Seq<MachineInfo>)
    ensures
        ({
            let r = relocated(m, found);
            &&& r.ip != m.ip ==> {
                &&& !r.previous_ips.contains(r.ip)
                &&& r.previous_ips.last() == m.ip
                &&& (m.previous_ips.len() <= KEPT_PREVIOUS_IPS ==> r.previous_ips.len()
                    <= KEPT_PREVIOUS_IPS)
                &&& (m.previous_ips.no_duplicates() && !m.previous_ips.contains(m.ip)
                    ==> r.previous_ips.no_duplicates())
                &&& r.nickname == m.nickname
                &&& r.serial == m.serial
                &&& r.manufacturer == m.manufacturer
            }
            &&& r.ip == m.ip ==> r == m
        }),
{
    let r = relocated(m, found);
    if r.ip != m.ip {
        let new_ip = r.ip;
        let f = m.previous_ips.filter(other_than(new_ip));
        m.previous_ips.filter_lemma(other_than(new_ip));
        lemma_filter_subset(m.previous_ips, other_than(new_ip));
        let v = f.push(m.ip);
        assert forall|k: int| 0 <= k < v.len() implies v[k] != new_ip by {
            if k < f.len() {
                assert(other_than(new_ip)(f[k]));
            }
        }
        if m.previous_ips.no_duplicates() && !m.previous_ips.contains(m.ip) {
            assert forall|a: int, b: int| 0 <= a < v.len() && 0 <= b < v.len() && a != b
                implies v[a] != v[b] by {
                if a == f.len() || b == f.len() {
                    let k = if a == f.len() {
                        b
                    } else {
                        a
                    };
                    assert(v[k] == f[k]);
                    assert(m.previous_ips.contains(f[k]));
                } else {
                    assert(v[a] == f[a] && v[b] == f[b]);
                }
            }
        }
        if v.len() > KEPT_PREVIOUS_IPS {
            assert forall|k: int| 0 <= k < v.drop_first().len() implies v.drop_first()[k]
                != new_ip by {
                assert(v.drop_first()[k] == v[k + 1]);
            }
            if v.no_duplicates() {
                assert forall|a: int, b: int|
                    0 <= a < v.drop_first().len() && 0 <= b < v.drop_first().len() && a != b
                    implies v.drop_first()[a] != v.drop_first()[b] by {
                    assert(v.drop_first()[a] == v[a + 1]);
                    assert(v.drop_first()[b] == v[b + 1]);
                }
            }
        }
    }
}

/// Where discovery found no saved device at a new address, refreshing
/// changes no saved machine.
pub proof fn lemma_refresh_without_moves(machines: Seq<SavedMachineView>, found: Seq<MachineInfo>)
    requires
        !any_moved(machines, found),
    ensures
        machines.map_values(|m: SavedMachineView| relocated(m, found)) == machines,
{
    assert forall|i: int| 0 <= i < machines.len() implies relocated(
        #[trigger] machines[i],
        found,
    ) == machines[i] by {
        let m = machines[i];
        if let Some(serial) = m.serial {
            let man = manufacturer_or_empty(m);
            if count_matches(found, man, serial) == 1 {
                let p = |j: int| is_same_device(found[j], man, serial);
                lemma_first_where_some(found.len() as int, p);
                if let Some(j) = first_where(found.len() as int, p) {
                    if found[j].identity.ip != m.ip {
                        assert(moved_to(machines[i], found[j]));
                    }
                }
            }
        }
    }
    assert(machines.map_values(|m: SavedMachineView| relocated(m, found)) =~= machines);
}

/// Resolution accepts only the expected device, and refuses a discovery in
/// which the device is missing or ambiguous.
pub proof fn lemma_resolution_accepts_only_expected(r: Resolution, event: ResolveEvent)
    ensures
        ({
            let (next, action) = step_spec(r, event);
            &&& (action matches ResolveAction::Accept { info, .. } ==> acceptable(
                r.plan.expected,
                info,
            ))
            &&& (event matches ResolveEvent::Discovered(found) ==> (r.plan.expected matches Some(
                (m, s),
            ) ==> (r.phase is Discovering && count_matches(found@, m@, s@) != 1 ==> action
                == ResolveAction::Refuse(MachineError::IdentityChanged))))
            &&& next.plan == r.plan
        }),
{
}

/// The state and last action after the events `events`, from the start of
/// resolution with `plan`.
pub open spec fn resolve_after(plan: ResolvePlan, events: Seq<ResolveEvent>) -> (
    Resolution,
    ResolveAction,
)
    decreases events.len(),
{
    if events.len() == 0 {
        start_spec(plan)
    } else {
        step_spec(resolve_after(plan, events.drop_last()).0, events.last())
    }
}

/// However the outside answers, resolution keeps its plan, accepts only the
/// expected device, and refuses with a changed identity, an error a probe of
/// the candidate reported, or, only where no identity is expected, with the
/// target being unreachable.
pub proof fn lemma_resolution_run(plan: ResolvePlan, events: Seq<ResolveEvent>)
    ensures
        ({
            let (r, action) = resolve_after(plan, events);
            &&& r.plan == plan
            &&& (action matches ResolveAction::Accept { info, .. } ==> acceptable(
                plan.expected,
                info,
            ))
            &&& (action matches ResolveAction::Refuse(e) ==> {
                ||| e == MachineError::IdentityChanged
                ||| (plan.expected is None && e == MachineError::Unreachable(plan.target))
                ||| (events.len() > 0 && events.last() == ResolveEvent::Probed(
                    Err::<Option<MachineInfo>, MachineError>(e),
                ))
            })
        }),
    decreases events.len(),
{
    if events.len() > 0 {
        lemma_resolution_run(plan, events.drop_last());
    }
}

/// Where a device is expected and the target did not answer as that device
/// (no answer, a probe error, or another machine), resolution goes on to
/// discover the machines of the expected manufacturer; it never gives up
/// at the target. A changed identity is reported only once discovery found
/// no single match, or the candidate failed to confirm: a sole match is
/// probed at its own address, and a candidate that answers as the device is
/// accepted.
pub proof fn lemma_moved_device_is_looked_for(r: Resolution, event: ResolveEvent)
    ensures
        ({
            let (next, action) = step_spec(r, event);
            &&& (r.phase is Direct && r.plan.expected is Some && !(event is Probed
                && event->Probed_0 is Ok && event->Probed_0->Ok_0 is Some && is_same_device(
                event->Probed_0->Ok_0->Some_0,
                r.plan.expected->Some_0.0@,
                r.plan.expected->Some_0.1@,
            ))) ==> {
                &&& action == ResolveAction::Discover { manufacturer: r.plan.expected->Some_0.0 }
                &&& next.phase is Discovering
            }
            &&& (action == ResolveAction::Refuse(MachineError::IdentityChanged) ==> !(
            r.phase is Direct))
            &&& (r.phase is Direct && r.plan.expected is None && !(event is Probed
                && event->Probed_0 is Ok && event->Probed_0->Ok_0 is Some) ==> action
                == ResolveAction::Refuse(MachineError::Unreachable(r.plan.target)))
            &&& (r.phase is Discovering && r.plan.expected is Some && event is Discovered
                && count_matches(
                event->Discovered_0@,
                r.plan.expected->Some_0.0@,
                r.plan.expected->Some_0.1@,
            ) == 1) ==> {
                &&& next.phase is Confirming
                &&& action is ProbeCandidate
                &&& action->ProbeCandidate_manufacturer == r.plan.expected->Some_0.0
                &&& exists|i: int|
                    0 <= i < event->Discovered_0@.len() && is_same_device(
                        #[trigger] event->Discovered_0@[i],
                        r.plan.expected->Some_0.0@,
                        r.plan.expected->Some_0.1@,
                    ) && event->Discovered_0@[i].identity.ip == action->ProbeCandidate_ip
            }
            &&& (r.phase is Confirming && r.plan.expected is Some && event is Probed
                && event->Probed_0 is Ok && event->Probed_0->Ok_0 is Some && is_same_device(
                event->Probed_0->Ok_0->Some_0,
                r.plan.expected->Some_0.0@,
                r.plan.expected->Some_0.1@,
            )) ==> action is Accept && action->Accept_info == event->Probed_0->Ok_0->Some_0
        }),
{
    if r.phase is Discovering {
        if let ResolveEvent::Discovered(found) = event {
            if let Some((m, s)) = r.plan.expected {
                if count_matches(found@, m@, s@) == 1 {
                    lemma_some_match(found@, m@, s@);
                    let i = choose|i: int| 0 <= i < found@.len() && is_same_device(#[trigger] found@[i], m@, s@);
                    let p = |k: int| is_same_device(found@[k], m@, s@);
                    assert(p(i));
                    lemma_first_exists(found@.len() as int, p, i);
                    lemma_first_where_some(found@.len() as int, p);
                }
            }
        }
    }
}

/// Where some found machine is the device, one of them is.
proof fn lemma_some_match(found: Seq<MachineInfo>, manufacturer: Seq<char>, serial: Seq<char>)
    requires
        count_matches(found, manufacturer, serial) > 0,
    ensures
        exists|i: int| 0 <= i < found.len() && is_same_device(#[trigger] found[i], manufacturer, serial),
    decreases found.len(),
{
    if !is_same_device(found[0], manufacturer, serial) {
        lemma_some_match(found.drop_first(), manufacturer, serial);
        let i = choose|i: int| 0 <= i < found.drop_first().len() && is_same_device(#[trigger] found.drop_first()[i], manufacturer, serial);
        assert(found[i + 1] == found.drop_first()[i]);
    }
}

} // verus!
