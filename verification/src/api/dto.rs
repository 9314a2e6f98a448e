//! Data shapes the protocol sends for devices, capture detection and
//! inventory identifiers, and their construction from the core's own types.
use vstd::prelude::*;

use crate::devices::{ipv4_string, ipv4_text, CaptureDevice, CaptureEnvironment};

verus! {

#[derive(Debug)]
pub struct DeviceDto {
    pub name: String,
    pub description: String,
    pub ipv4: Vec<String>,
}

/// `dto` shows `device`: same name and description, each address in dotted-decimal form.
pub open spec fn shows_device(dto: DeviceDto, device: CaptureDevice) -> bool {
    &&& dto.name@ == device.name@
    &&& dto.description@ == device.description@
    &&& dto.ipv4@.len() == device.ipv4@.len()
    &&& forall|i: int| 0 <= i < dto.ipv4@.len() ==> #[trigger] dto.ipv4@[i]@ == ipv4_text(device.ipv4@[i])
}

impl DeviceDto {
    /// The protocol's view of a capture device.
    pub fn from_device(device: &CaptureDevice) -> (r: Self)
        ensures
            shows_device(r, *device),
    {
        let mut ipv4: Vec<String> = Vec::new();
        let mut i: usize = 0;
        while i < device.ipv4.len()
            invariant
                i <= device.ipv4@.len(),
                ipv4@.len() == i,
                forall|k: int| 0 <= k < i ==> #[trigger] ipv4@[k]@ == ipv4_text(device.ipv4@[k]),
            decreases device.ipv4.len() - i,
        {
            ipv4.push(ipv4_string(device.ipv4[i]));
            i += 1;
        }
        DeviceDto { name: device.name.clone(), description: device.description.clone(), ipv4 }
    }
}

/// Each element of `dtos` shows the device at the same position.
pub open spec fn shows_devices(dtos: Seq<DeviceDto>, devices: Seq<CaptureDevice>) -> bool {
    dtos.len() == devices.len() && forall|i: int|
        0 <= i < dtos.len() ==> shows_device(#[trigger] dtos[i], devices[i])
}

fn device_dtos(devices: &Vec<CaptureDevice>) -> (r: Vec<DeviceDto>)
    ensures
        shows_devices(r@, devices@),
{
    let mut out: Vec<DeviceDto> = Vec::new();
    let mut i: usize = 0;
    while i < devices.len()
        invariant
            i <= devices@.len(),
            out@.len() == i,
            forall|k: int| 0 <= k < i ==> shows_device(#[trigger] out@[k], devices@[k]),
        decreases devices.len() - i,
    {
        out.push(DeviceDto::from_device(&devices[i]));
        i += 1;
    }
    out
}

#[derive(Debug)]
pub struct DevicesResult {
    pub devices: Vec<DeviceDto>,
}

impl DevicesResult {
    pub fn new(devices: &Vec<CaptureDevice>) -> (r: Self)
        ensures
            shows_devices(r.devices@, devices@),
    {
        DevicesResult { devices: device_dtos(devices) }
    }
}

#[derive(Debug)]
pub struct CaptureDetectResult {
    pub game_process_detected: bool,
    pub recommended_device: Option<String>,
    pub local_ip_detected: bool,
    pub devices: Vec<DeviceDto>,
}

impl CaptureDetectResult {
    /// The protocol's view of a capture environment.
    pub fn from_environment(environment: CaptureEnvironment) -> (r: Self)
        ensures
            r.game_process_detected == environment.game_process_detected,
            r.recommended_device == environment.recommended_device,
            r.local_ip_detected == environment.local_ip_detected,
            shows_devices(r.devices@, environment.devices@),
    {
        let devices = device_dtos(&environment.devices);
        CaptureDetectResult {
            game_process_detected: environment.game_process_detected,
            recommended_device: environment.recommended_device,
            local_ip_detected: environment.local_ip_detected,
            devices,
        }
    }
}

/// Names of an item in the three shipped languages.
#[derive(Clone, Debug)]
pub struct LocalizedNames {
    pub zh_cn: String,
    pub en: String,
    pub ja: String,
}

#[derive(Clone, Debug)]
pub struct LocalizedNamesDto {
    pub zh_cn: String,
    pub en: String,
    pub ja: String,
}

impl LocalizedNamesDto {
    pub fn from_names(names: &LocalizedNames) -> (r: Self)
        ensures
            r.zh_cn == names.zh_cn,
            r.en == names.en,
            r.ja == names.ja,
    {
        LocalizedNamesDto {
            zh_cn: names.zh_cn.clone(),
            en: names.en.clone(),
            ja: names.ja.clone(),
        }
    }
}

/// The identity of an inventory item.
#[derive(Clone, Copy, Debug, PartialEq, Eq, Structural)]
pub struct ItemUid {
    pub slot: u32,
    pub serial: u32,
}

#[derive(Clone, Copy, Debug, PartialEq, Eq, Structural)]
pub struct ItemUidDto {
    pub slot: u32,
    pub serial: u32,
}

impl From<ItemUid> for ItemUidDto {
    fn from(uid: ItemUid) -> (r: Self) {
        ItemUidDto { slot: uid.slot, serial: uid.serial }
    }
}

impl vstd::std_specs::convert::FromSpecImpl<ItemUid> for ItemUidDto {
    open spec fn obeys_from_spec() -> bool {
        true
    }

    open spec fn from_spec(uid: ItemUid) -> Self {
        ItemUidDto { slot: uid.slot, serial: uid.serial }
    }
}

} // verus!
