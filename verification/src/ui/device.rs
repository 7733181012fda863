//! The devices a radio's host can see.

use crate::text::text;
use vstd::prelude::*;
use vstd::string::*;

verus! {

/// What a device is good for.
#[derive(Debug, Clone, Copy, PartialEq, Eq, Structural)]
pub enum DeviceKind {
    AudioInput,
    Sdr,
}

/// The heading of a group of devices.
pub open spec fn heading_text(kind: DeviceKind) -> Seq<char> {
    match kind {
        DeviceKind::AudioInput => "AUDIO INPUT"@,
        DeviceKind::Sdr => "SDR"@,
    }
}

/// The command-line flag that takes a device of this kind.
pub open spec fn flag_text(kind: DeviceKind) -> Seq<char> {
    match kind {
        DeviceKind::AudioInput => "--acc2-audio"@,
        DeviceKind::Sdr => "--if-out"@,
    }
}

impl DeviceKind {
    pub fn heading(self) -> (r: &'static str)
        ensures
            r@ == heading_text(self),
    {
        match self {
            DeviceKind::AudioInput => "AUDIO INPUT",
            DeviceKind::Sdr => "SDR",
        }
    }

    pub fn flag(self) -> (r: &'static str)
        ensures
            r@ == flag_text(self),
    {
        match self {
            DeviceKind::AudioInput => "--acc2-audio",
            DeviceKind::Sdr => "--if-out",
        }
    }
}

/// One device.
#[derive(Debug, PartialEq, Eq)]
pub struct DeviceInfo {
    pub kind: DeviceKind,
    /// The exact string the flag takes.
    pub spec: String,
    /// The driver's own name for it.
    pub label: String,
    pub detail: Option<String>,
    pub is_default: bool,
}

/// Whether two descriptions say the same of a device.
pub open spec fn same_device(a: DeviceInfo, b: DeviceInfo) -> bool {
    &&& a.kind == b.kind
    &&& a.spec@ == b.spec@
    &&& a.label@ == b.label@
    &&& match (a.detail, b.detail) {
        (Some(x), Some(y)) => x@ == y@,
        (None, None) => true,
        _ => false,
    }
    &&& a.is_default == b.is_default
}

impl DeviceInfo {
    /// The same description.
    pub fn copy(&self) -> (r: DeviceInfo)
        ensures
            same_device(r, *self),
    {
        let detail: Option<String> = match &self.detail {
            Some(d) => Some(d.clone()),
            None => None,
        };
        DeviceInfo {
            kind: self.kind,
            spec: self.spec.clone(),
            label: self.label.clone(),
            detail,
            is_default: self.is_default,
        }
    }
}

/// What was found of one kind: some devices, none, or the reason why nobody
/// could look.
#[derive(Debug, PartialEq, Eq)]
pub struct DeviceList {
    pub kind: DeviceKind,
    pub devices: Vec<DeviceInfo>,
    pub error: Option<String>,
}

impl DeviceList {
    /// These devices were found.
    pub fn found(kind: DeviceKind, devices: Vec<DeviceInfo>) -> (r: DeviceList)
        ensures
            r.kind == kind,
            r.devices == devices,
            r.error is None,
    {
        DeviceList { kind, devices, error: None }
    }

    /// Nobody could look, and why.
    pub fn unavailable(kind: DeviceKind, why: &str) -> (r: DeviceList)
        ensures
            r.kind == kind,
            r.devices@.len() == 0,
            r.error matches Some(e) && e@ == why@,
    {
        DeviceList { kind, devices: Vec::new(), error: Some(text(why)) }
    }
}

/// Two descriptions that say the same agree in everything that is shown.
pub proof fn the_same_device_reads_the_same(a: DeviceInfo, b: DeviceInfo)
    requires
        same_device(a, b),
    ensures
        a.kind == b.kind,
        a.spec@ == b.spec@,
        a.label@ == b.label@,
        a.detail is Some <==> b.detail is Some,
        a.detail matches Some(x) ==> x@ == b.detail->0@,
        a.is_default == b.is_default,
{
}

} // verus!
