//! When the app may install an update of itself.
use vstd::prelude::*;
use vstd::string::*;
use crate::text::text_eq;

verus! {

/// A signed release that the updater offers.
#[derive(Debug)]
pub struct AvailableUpdate {
    pub version: String,
    pub notes: Option<String>,
}

/// Why an update is not checked for or not installed.
#[derive(Clone, Copy, PartialEq, Eq, Structural, Debug)]
pub enum UpdateRefusal {
    /// A transfer or a USB setup is running.
    Busy,
    /// Transfers are still queued, waiting or uploading.
    TransfersQueued,
    /// The updater offers no release.
    NoUpdate,
    /// The offered release is not the one the user chose.
    ReleaseChanged,
    /// The release feed could not be read.
    CheckFailed,
}

pub open spec fn refusal_message(r: UpdateRefusal) -> Seq<char> {
    match r {
        UpdateRefusal::Busy => "Finish the current transfer or USB setup before updating."@,
        UpdateRefusal::TransfersQueued => "Finish or cancel queued transfers before updating."@,
        UpdateRefusal::NoUpdate => "No update is available"@,
        UpdateRefusal::ReleaseChanged => "The available release changed. Check for updates again."@,
        UpdateRefusal::CheckFailed =>
            "Could not check for updates. The first signed release may not be published yet; try again later or check GitHub Releases."@,
    }
}

impl UpdateRefusal {
    /// What the user is told.
    pub fn message(&self) -> (r: String)
        ensures
            r@ == refusal_message(*self),
    {
        match self {
            UpdateRefusal::Busy => String::from_str(
                "Finish the current transfer or USB setup before updating.",
            ),
            UpdateRefusal::TransfersQueued => String::from_str(
                "Finish or cancel queued transfers before updating.",
            ),
            UpdateRefusal::NoUpdate => String::from_str("No update is available"),
            UpdateRefusal::ReleaseChanged => String::from_str(
                "The available release changed. Check for updates again.",
            ),
            UpdateRefusal::CheckFailed => String::from_str(
                "Could not check for updates. The first signed release may not be published yet; try again later or check GitHub Releases.",
            ),
        }
    }
}

/// Installation needs no running transfer or USB setup (`lifecycle_free`)
/// and an empty transfer queue.
pub fn install_precheck(lifecycle_free: bool, pending_transfers: usize) -> (r: Result<
    (),
    UpdateRefusal,
>)
    ensures
        r == if !lifecycle_free {
            Err(UpdateRefusal::Busy)
        } else if pending_transfers > 0 {
            Err(UpdateRefusal::TransfersQueued)
        } else {
            Ok::<(), UpdateRefusal>(())
        },
{
    if !lifecycle_free {
        return Err(UpdateRefusal::Busy);
    }
    if pending_transfers > 0 {
        return Err(UpdateRefusal::TransfersQueued);
    }
    Ok(())
}

/// The release to install must be offered and be the version the user
/// chose.
pub fn confirm_release(available: &Option<AvailableUpdate>, requested: &str) -> (r: Result<
    (),
    UpdateRefusal,
>)
    ensures
        r == match *available {
            None => Err(UpdateRefusal::NoUpdate),
            Some(u) => if u.version@ == requested@ {
                Ok::<(), UpdateRefusal>(())
            } else {
                Err(UpdateRefusal::ReleaseChanged)
            },
        },
{
    match available {
        None => Err(UpdateRefusal::NoUpdate),
        Some(u) => {
            if text_eq(u.version.as_str(), requested) {
                Ok(())
            } else {
                Err(UpdateRefusal::ReleaseChanged)
            }
        },
    }
}

} // verus!
