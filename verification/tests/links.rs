use ember_bridge::link::{link_destination, Page};
use ember_bridge::update::{confirm_release, install_precheck, AvailableUpdate, UpdateRefusal};

#[test]
fn accepts_navigation_only() {
    for (url, page) in [
        ("ember-bridge://open", "machines"),
        ("ember-bridge://connect/", "settings"),
        ("ember-bridge://setup", "setup"),
    ] {
        assert_eq!(link_destination(url).map(|p| p.as_str()), Some(page));
    }
    for url in [
        "https://open",
        "ember-bridge://send",
        "ember-bridge://open?token=secret",
        "ember-bridge://setup/file",
        "ember-bridge://user@open",
        "ember-bridge://open:42",
        "ember-bridge://connect#approve",
    ] {
        assert_eq!(link_destination(url), None);
    }
}

#[test]
fn links_with_credentials_or_unknown_commands_lead_nowhere() {
    assert_eq!(link_destination("ember-bridge://user:pw@open"), None);
    assert_eq!(link_destination("ember-bridge://:pw@open"), None);
    assert_eq!(link_destination("ember-bridge://OPEN"), None);
    assert_eq!(link_destination("ember-bridge://update"), None);
    assert_eq!(link_destination("not a url"), None);
    assert_eq!(link_destination(""), None);
    assert_eq!(link_destination("ember-bridge://open?"), None);
    assert_eq!(link_destination("ember-bridge://setup#"), None);
}

#[test]
fn page_names() {
    assert_eq!(Page::Machines.as_str(), "machines");
    assert_eq!(Page::Settings.as_str(), "settings");
    assert_eq!(Page::Setup.as_str(), "setup");
}

#[test]
fn updates_wait_for_idle_and_empty_queue() {
    assert_eq!(install_precheck(false, 0), Err(UpdateRefusal::Busy));
    assert_eq!(install_precheck(false, 3), Err(UpdateRefusal::Busy));
    assert_eq!(install_precheck(true, 1), Err(UpdateRefusal::TransfersQueued));
    assert_eq!(install_precheck(true, 0), Ok(()));
}

#[test]
fn only_the_chosen_release_is_installed() {
    assert_eq!(confirm_release(&None, "0.5.1"), Err(UpdateRefusal::NoUpdate));
    let offered = Some(AvailableUpdate { version: "0.5.1".into(), notes: None });
    assert_eq!(confirm_release(&offered, "0.5.1"), Ok(()));
    assert_eq!(confirm_release(&offered, "0.5.2"), Err(UpdateRefusal::ReleaseChanged));
}

#[test]
fn update_refusals_explain_themselves() {
    assert_eq!(
        UpdateRefusal::Busy.message(),
        "Finish the current transfer or USB setup before updating."
    );
    assert_eq!(
        UpdateRefusal::TransfersQueued.message(),
        "Finish or cancel queued transfers before updating."
    );
    assert_eq!(UpdateRefusal::NoUpdate.message(), "No update is available");
    assert_eq!(
        UpdateRefusal::ReleaseChanged.message(),
        "The available release changed. Check for updates again."
    );
    assert!(UpdateRefusal::CheckFailed.message().starts_with("Could not check for updates."));
}
