//! Results and events the sidecar sends back.
use vstd::prelude::*;

use super::{DATA_VERSION, PROTOCOL_VERSION};

verus! {

/// Version of this core.
pub const CORE_VERSION: &'static str = "0.1.0";

#[derive(Debug)]
pub struct VersionResult {
    pub core_version: &'static str,
    pub protocol_version: u32,
    pub data_version: &'static str,
}

impl Default for VersionResult {
    fn default() -> (r: Self)
        ensures
            r.core_version == CORE_VERSION,
            r.protocol_version == PROTOCOL_VERSION,
            r.data_version == DATA_VERSION,
    {
        VersionResult {
            core_version: CORE_VERSION,
            protocol_version: PROTOCOL_VERSION,
            data_version: DATA_VERSION,
        }
    }
}

#[derive(Debug)]
pub struct HelloResult {
    pub core_version: &'static str,
    pub protocol_version: u32,
    pub data_version: &'static str,
    pub capabilities: [&'static str; 4],
    pub raw_capture_default: bool,
}

/// The capabilities announced in the handshake, in order.
pub open spec fn capabilities() -> Seq<&'static str> {
    seq!["capture", "inventory", "battle_summary", "equipment"]
}

impl Default for HelloResult {
    fn default() -> (r: Self)
        ensures
            r.core_version == CORE_VERSION,
            r.protocol_version == PROTOCOL_VERSION,
            r.data_version == DATA_VERSION,
            r.capabilities@ == capabilities(),
            r.raw_capture_default,
    {
        let r = HelloResult {
            core_version: CORE_VERSION,
            protocol_version: PROTOCOL_VERSION,
            data_version: DATA_VERSION,
            capabilities: ["capture", "inventory", "battle_summary", "equipment"],
            raw_capture_default: true,
        };
        assert(r.capabilities@ =~= capabilities());
        r
    }
}

#[derive(Debug)]
pub struct StatusResult {
    pub handshaken: bool,
    pub capture_running: bool,
    pub capture_profile: Option<&'static str>,
    pub core_state: &'static str,
    pub latest_inventory_generation: Option<u64>,
    pub has_battle_data: bool,
    pub raw_capture_path: Option<String>,
}

/// The core state reported for a capture that is or is not running.
pub open spec fn core_state_for(capture_running: bool) -> &'static str {
    if capture_running {
        "capturing"
    } else {
        "idle"
    }
}

impl StatusResult {
    pub fn new(
        handshaken: bool,
        capture_running: bool,
        capture_profile: Option<&'static str>,
        latest_inventory_generation: Option<u64>,
        has_battle_data: bool,
        raw_capture_path: Option<String>,
    ) -> (r: Self)
        ensures
            r.handshaken == handshaken,
            r.capture_running == capture_running,
            r.capture_profile == capture_profile,
            r.core_state == core_state_for(capture_running),
            r.latest_inventory_generation == latest_inventory_generation,
            r.has_battle_data == has_battle_data,
            r.raw_capture_path == raw_capture_path,
    {
        StatusResult {
            handshaken,
            capture_running,
            capture_profile,
            core_state: if capture_running {
                "capturing"
            } else {
                "idle"
            },
            latest_inventory_generation,
            has_battle_data,
            raw_capture_path,
        }
    }
}

#[derive(Debug)]
pub struct ShutdownResult {
    pub shutting_down: bool,
}

#[derive(Debug)]
pub struct CaptureStartResult {
    pub operation_id: String,
}

#[derive(Debug)]
pub struct CaptureStopResult {
    pub operation_id: String,
    pub stopped: bool,
}

#[derive(Debug)]
pub struct EquipmentRequestResult {
    pub status: &'static str,
}

#[derive(Debug)]
pub struct CaptureStatusEvent {
    pub sequence: u64,
    pub operation_id: String,
    pub status: &'static str,
    pub profile: &'static str,
}

#[derive(Debug)]
pub struct CoreMessageEvent {
    pub sequence: u64,
    pub message: &'static str,
}

#[derive(Debug)]
pub struct BattleResetResult {
    pub reset: bool,
}

} // verus!
