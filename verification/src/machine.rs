//! What a machine reports about itself, and how talking to it can fail.
use vstd::prelude::*;
use crate::net::{IpAddress, ip_text, push_ip};
use vstd::string::*;

verus! {

/// Who a machine is and where it answers.
#[derive(Debug)]
pub struct MachineIdentity {
    pub ip: IpAddress,
    pub serial: Option<String>,
    pub manufacturer: String,
    pub model: String,
    pub name: Option<String>,
    pub firmware: Option<String>,
}

/// What a machine can do with files.
#[derive(Clone, Copy, PartialEq, Eq, Structural, Debug)]
pub struct MachineCapabilities {
    pub max_file_bytes: Option<u64>,
    pub can_delete_files: bool,
    pub overwrites_by_name: bool,
}

/// A machine's identity together with its capabilities.
#[derive(Debug)]
pub struct MachineInfo {
    pub identity: MachineIdentity,
    pub capabilities: MachineCapabilities,
}

/// What an upload reports back on success.
#[derive(Debug)]
pub struct UploadReceipt {
    pub bytes_sent: u64,
    pub stored_as: Option<String>,
}

/// Failures of a machine operation.
#[derive(Debug)]
pub enum MachineError {
    /// The machine answering is not the one that was expected.
    IdentityChanged,
    /// No supported machine answers at the address.
    Unreachable(IpAddress),
    /// The machine said it is busy and accepted nothing.
    Busy,
    /// The upload may or may not have reached the machine.
    DeliveryUnknown,
    /// A file of that name already exists on the machine.
    FileExists,
    /// The machine answered something that could not be understood.
    Protocol(String),
}

pub open spec fn machine_code(e: MachineError) -> Seq<char> {
    match e {
        MachineError::IdentityChanged => "identity_changed"@,
        MachineError::Unreachable(_) => "unreachable"@,
        MachineError::Busy => "busy"@,
        MachineError::DeliveryUnknown => "delivery_unknown"@,
        MachineError::FileExists => "file_exists"@,
        MachineError::Protocol(_) => "protocol_error"@,
    }
}

pub open spec fn machine_message(e: MachineError) -> Seq<char> {
    match e {
        MachineError::IdentityChanged =>
            "The machine at this address is not the expected device."@,
        MachineError::Unreachable(ip) => "No supported machine responds at "@ + ip_text(ip),
        MachineError::Busy => "The machine is busy."@,
        MachineError::DeliveryUnknown =>
            "The machine may or may not have received the file. Check the device."@,
        MachineError::FileExists => "A file with this name already exists on the machine."@,
        MachineError::Protocol(s) => s@,
    }
}

impl MachineError {
    /// The stable code of the error, such as `identity_changed`.
    pub fn code(&self) -> (r: &'static str)
        ensures
            r@ == machine_code(*self),
    {
        match self {
            MachineError::IdentityChanged => "identity_changed",
            MachineError::Unreachable(_) => "unreachable",
            MachineError::Busy => "busy",
            MachineError::DeliveryUnknown => "delivery_unknown",
            MachineError::FileExists => "file_exists",
            MachineError::Protocol(_) => "protocol_error",
        }
    }

    /// The human-readable explanation of the error.
    pub fn message(&self) -> (r: String)
        ensures
            r@ == machine_message(*self),
    {
        match self {
            MachineError::IdentityChanged => String::from_str(
                "The machine at this address is not the expected device.",
            ),
            MachineError::Unreachable(ip) => {
                let mut text = String::from_str("No supported machine responds at ");
                push_ip(&mut text, *ip);
                text
            },
            MachineError::Busy => String::from_str("The machine is busy."),
            MachineError::DeliveryUnknown => String::from_str(
                "The machine may or may not have received the file. Check the device.",
            ),
            MachineError::FileExists => String::from_str(
                "A file with this name already exists on the machine.",
            ),
            MachineError::Protocol(s) => s.clone(),
        }
    }
}

impl Clone for MachineError {
    fn clone(&self) -> (r: Self)
        ensures
            r == *self,
    {
        match self {
            MachineError::IdentityChanged => MachineError::IdentityChanged,
            MachineError::Unreachable(ip) => MachineError::Unreachable(*ip),
            MachineError::Busy => MachineError::Busy,
            MachineError::DeliveryUnknown => MachineError::DeliveryUnknown,
            MachineError::FileExists => MachineError::FileExists,
            MachineError::Protocol(s) => MachineError::Protocol(s.clone()),
        }
    }
}

/// A copy of an optional text.
pub fn copy_opt(a: &Option<String>) -> (r: Option<String>)
    ensures
        r == *a,
{
    match a {
        Some(s) => Some(s.clone()),
        None => None,
    }
}

impl Clone for MachineIdentity {
    fn clone(&self) -> (r: Self)
        ensures
            r == *self,
    {
        MachineIdentity {
            ip: self.ip,
            serial: copy_opt(&self.serial),
            manufacturer: self.manufacturer.clone(),
            model: self.model.clone(),
            name: copy_opt(&self.name),
            firmware: copy_opt(&self.firmware),
        }
    }
}

impl Clone for MachineInfo {
    fn clone(&self) -> (r: Self)
        ensures
            r == *self,
    {
        MachineInfo { identity: self.identity.clone(), capabilities: self.capabilities }
    }
}

impl Clone for UploadReceipt {
    fn clone(&self) -> (r: Self)
        ensures
            r == *self,
    {
        UploadReceipt { bytes_sent: self.bytes_sent, stored_as: copy_opt(&self.stored_as) }
    }
}

} // verus!
