//! Typed requests of the sidecar protocol and their validation.
//!
//! Parameters are read from the JSON tree as a derived decoder reads a JSON
//! value: a struct comes from an object (unknown members ignored, a missing
//! optional member read as absent) or from an array holding exactly its fields
//! in order; an enum of unit variants comes from the variant's name or from an
//! object with that name as its only key and null as its value; the device
//! choice is tagged by its `mode` member (or by the first element of an array).
use vstd::prelude::*;

use super::jsonrpc::{is_invalid_params, RpcError};
use crate::json::{as_text, get_member, lookup, member, JsonNumber, JsonValue};
use crate::text::{chars_of, is_blank, owned, push_str, str_eq, str_is_blank};

verus! {

#[derive(Debug)]
pub enum Request {
    Hello(HelloParams),
    Status,
    Shutdown,
    CaptureDetect,
    CaptureStart(CaptureStartParams),
    CaptureStop,
    InventoryGetLatest,
    Equipment(EquipmentOperationParam),
    BattleGetSummary(BattleSummaryParams),
    BattleReset,
    Unknown,
}

#[derive(Debug)]
pub struct HelloParams {
    pub client_name: String,
    pub client_version: String,
    pub protocol_min: u32,
    pub protocol_max: u32,
}

#[derive(Clone, Copy, Debug, PartialEq, Eq, Structural)]
pub enum CaptureProfileParam {
    Inventory,
    Combat,
}

#[derive(Clone, Debug, PartialEq, Eq)]
pub enum CaptureDeviceParam {
    Auto,
    Name { name: String },
}

#[derive(Clone, Copy, Debug, PartialEq, Eq, Structural)]
pub enum RawCaptureParam {
    Enabled,
    Disabled,
}

#[derive(Clone, Debug)]
pub struct CaptureStartParams {
    pub profile: CaptureProfileParam,
    pub device: CaptureDeviceParam,
    pub include_incoming: bool,
    pub server_damage_calibration: bool,
    pub raw_capture: Option<RawCaptureParam>,
}

#[derive(Clone, Copy, Debug, PartialEq, Eq, Structural)]
pub struct BattleSummaryParams {
    pub subtract_time_stop: bool,
}

#[derive(Clone, Copy, Debug, PartialEq, Eq, Structural)]
pub struct ItemUidParam {
    pub slot: u32,
    pub serial: u32,
}

#[derive(Clone, Copy, Debug, PartialEq, Eq, Structural)]
pub struct EquipmentPlacementParam {
    pub equipment: ItemUidParam,
    pub row: i32,
    pub column: i32,
}

#[derive(Clone, Debug, PartialEq, Eq)]
pub enum EquipmentOperationParam {
    EquipModule { character: ItemUidParam, equipment: ItemUidParam, row: i32, column: i32 },
    EquipCore { character: ItemUidParam, equipment: ItemUidParam },
    UnequipModule { character: ItemUidParam, equipment: ItemUidParam },
    UnequipCore { character: ItemUidParam, equipment: ItemUidParam },
    UnequipAll { character: ItemUidParam },
    EquipOneKey {
        character: ItemUidParam,
        placements: Vec<EquipmentPlacementParam>,
        core: ItemUidParam,
    },
    MoveModuleToCharacter {
        character: ItemUidParam,
        equipment: ItemUidParam,
        row: i32,
        column: i32,
    },
    MoveCoreToCharacter { character: ItemUidParam, equipment: ItemUidParam },
    SetItemDiscarded { equipment: ItemUidParam, discarded: bool },
    SetItemLocked { equipment: ItemUidParam, locked: bool },
}

// ---------------------------------------------------------------------------
// Views
// ---------------------------------------------------------------------------

pub struct HelloParamsView {
    pub client_name: Seq<char>,
    pub client_version: Seq<char>,
    pub protocol_min: u32,
    pub protocol_max: u32,
}

impl View for HelloParams {
    type V = HelloParamsView;

    open spec fn view(&self) -> HelloParamsView {
        HelloParamsView {
            client_name: self.client_name@,
            client_version: self.client_version@,
            protocol_min: self.protocol_min,
            protocol_max: self.protocol_max,
        }
    }
}

pub enum CaptureDeviceView {
    Auto,
    Name(Seq<char>),
}

impl View for CaptureDeviceParam {
    type V = CaptureDeviceView;

    open spec fn view(&self) -> CaptureDeviceView {
        match self {
            CaptureDeviceParam::Auto => CaptureDeviceView::Auto,
            CaptureDeviceParam::Name { name } => CaptureDeviceView::Name(name@),
        }
    }
}

pub struct CaptureStartView {
    pub profile: CaptureProfileParam,
    pub device: CaptureDeviceView,
    pub include_incoming: bool,
    pub server_damage_calibration: bool,
    pub raw_capture: Option<RawCaptureParam>,
}

impl View for CaptureStartParams {
    type V = CaptureStartView;

    open spec fn view(&self) -> CaptureStartView {
        CaptureStartView {
            profile: self.profile,
            device: self.device@,
            include_incoming: self.include_incoming,
            server_damage_calibration: self.server_damage_calibration,
            raw_capture: self.raw_capture,
        }
    }
}

pub enum EquipmentOperationView {
    EquipModule { character: ItemUidParam, equipment: ItemUidParam, row: i32, column: i32 },
    EquipCore { character: ItemUidParam, equipment: ItemUidParam },
    UnequipModule { character: ItemUidParam, equipment: ItemUidParam },
    UnequipCore { character: ItemUidParam, equipment: ItemUidParam },
    UnequipAll { character: ItemUidParam },
    EquipOneKey {
        character: ItemUidParam,
        placements: Seq<EquipmentPlacementParam>,
        core: ItemUidParam,
    },
    MoveModuleToCharacter {
        character: ItemUidParam,
        equipment: ItemUidParam,
        row: i32,
        column: i32,
    },
    MoveCoreToCharacter { character: ItemUidParam, equipment: ItemUidParam },
    SetItemDiscarded { equipment: ItemUidParam, discarded: bool },
    SetItemLocked { equipment: ItemUidParam, locked: bool },
}

impl View for EquipmentOperationParam {
    type V = EquipmentOperationView;

    open spec fn view(&self) -> EquipmentOperationView {
        match self {
            EquipmentOperationParam::EquipModule { character, equipment, row, column } =>
                EquipmentOperationView::EquipModule {
                character: *character,
                equipment: *equipment,
                row: *row,
                column: *column,
            },
            EquipmentOperationParam::EquipCore { character, equipment } =>
                EquipmentOperationView::EquipCore { character: *character, equipment: *equipment },
            EquipmentOperationParam::UnequipModule { character, equipment } =>
                EquipmentOperationView::UnequipModule {
                character: *character,
                equipment: *equipment,
            },
            EquipmentOperationParam::UnequipCore { character, equipment } =>
                EquipmentOperationView::UnequipCore {
                character: *character,
                equipment: *equipment,
            },
            EquipmentOperationParam::UnequipAll { character } => EquipmentOperationView::UnequipAll {
                character: *character,
            },
            EquipmentOperationParam::EquipOneKey { character, placements, core } =>
                EquipmentOperationView::EquipOneKey {
                character: *character,
                placements: placements@,
                core: *core,
            },
            EquipmentOperationParam::MoveModuleToCharacter { character, equipment, row, column } =>
                EquipmentOperationView::MoveModuleToCharacter {
                character: *character,
                equipment: *equipment,
                row: *row,
                column: *column,
            },
            EquipmentOperationParam::MoveCoreToCharacter { character, equipment } =>
                EquipmentOperationView::MoveCoreToCharacter {
                character: *character,
                equipment: *equipment,
            },
            EquipmentOperationParam::SetItemDiscarded { equipment, discarded } =>
                EquipmentOperationView::SetItemDiscarded {
                equipment: *equipment,
                discarded: *discarded,
            },
            EquipmentOperationParam::SetItemLocked { equipment, locked } =>
                EquipmentOperationView::SetItemLocked { equipment: *equipment, locked: *locked },
        }
    }
}

pub enum RequestView {
    Hello(HelloParamsView),
    Status,
    Shutdown,
    CaptureDetect,
    CaptureStart(CaptureStartView),
    CaptureStop,
    InventoryGetLatest,
    Equipment(EquipmentOperationView),
    BattleGetSummary(BattleSummaryParams),
    BattleReset,
    Unknown,
}

impl View for Request {
    type V = RequestView;

    open spec fn view(&self) -> RequestView {
        match self {
            Request::Hello(p) => RequestView::Hello(p@),
            Request::Status => RequestView::Status,
            Request::Shutdown => RequestView::Shutdown,
            Request::CaptureDetect => RequestView::CaptureDetect,
            Request::CaptureStart(p) => RequestView::CaptureStart(p@),
            Request::CaptureStop => RequestView::CaptureStop,
            Request::InventoryGetLatest => RequestView::InventoryGetLatest,
            Request::Equipment(p) => RequestView::Equipment(p@),
            Request::BattleGetSummary(p) => RequestView::BattleGetSummary(*p),
            Request::BattleReset => RequestView::BattleReset,
            Request::Unknown => RequestView::Unknown,
        }
    }
}

// ---------------------------------------------------------------------------
// Reading values
// ---------------------------------------------------------------------------

pub open spec fn deref_opt(v: Option<&JsonValue>) -> Option<JsonValue> {
    match v {
        Some(x) => Some(*x),
        None => None,
    }
}

/// Field `i`, named `name`, of a struct read from `v`.
pub open spec fn field(v: JsonValue, i: int, name: Seq<char>) -> Option<JsonValue> {
    match v {
        JsonValue::Object(entries) => lookup(entries@, name),
        JsonValue::Array(items) => if 0 <= i < items@.len() {
            Some(items@[i])
        } else {
            None
        },
        _ => None,
    }
}

/// `v` can hold a struct of `n` fields: an object, or an array of exactly `n` elements.
pub open spec fn struct_shaped(v: JsonValue, n: nat) -> bool {
    match v {
        JsonValue::Object(_) => true,
        JsonValue::Array(items) => items@.len() == n,
        _ => false,
    }
}

pub open spec fn read_u32(v: Option<JsonValue>) -> Option<u32> {
    match v {
        Some(JsonValue::Number(JsonNumber::PosInt(n))) => if n <= u32::MAX {
            Some(n as u32)
        } else {
            None
        },
        Some(JsonValue::Number(JsonNumber::NegInt(n))) => if 0 <= n <= u32::MAX {
            Some(n as u32)
        } else {
            None
        },
        _ => None,
    }
}

pub open spec fn read_i32(v: Option<JsonValue>) -> Option<i32> {
    match v {
        Some(JsonValue::Number(JsonNumber::PosInt(n))) => if n <= i32::MAX {
            Some(n as i32)
        } else {
            None
        },
        Some(JsonValue::Number(JsonNumber::NegInt(n))) => if i32::MIN <= n <= i32::MAX {
            Some(n as i32)
        } else {
            None
        },
        _ => None,
    }
}

pub open spec fn read_bool(v: Option<JsonValue>) -> Option<bool> {
    match v {
        Some(JsonValue::Bool(b)) => Some(b),
        _ => None,
    }
}

pub open spec fn read_uid(v: Option<JsonValue>) -> Option<ItemUidParam> {
    match v {
        Some(x) => if struct_shaped(x, 2) {
            match (read_u32(field(x, 0, "slot"@)), read_u32(field(x, 1, "serial"@))) {
                (Some(slot), Some(serial)) => Some(ItemUidParam { slot, serial }),
                _ => None,
            }
        } else {
            None
        },
        None => None,
    }
}

pub open spec fn read_placement(v: Option<JsonValue>) -> Option<EquipmentPlacementParam> {
    match v {
        Some(x) => if struct_shaped(x, 3) {
            match (
                read_uid(field(x, 0, "equipment"@)),
                read_i32(field(x, 1, "row"@)),
                read_i32(field(x, 2, "column"@)),
            ) {
                (Some(equipment), Some(row), Some(column)) => Some(
                    EquipmentPlacementParam { equipment, row, column },
                ),
                _ => None,
            }
        } else {
            None
        },
        None => None,
    }
}

/// Every element read as a placement.
pub open spec fn read_placement_seq(items: Seq<JsonValue>) -> Option<Seq<EquipmentPlacementParam>>
    decreases items.len(),
{
    if items.len() == 0 {
        Some(Seq::empty())
    } else {
        match (read_placement_seq(items.drop_last()), read_placement(Some(items.last()))) {
            (Some(ps), Some(p)) => Some(ps.push(p)),
            _ => None,
        }
    }
}

pub open spec fn read_placements(v: Option<JsonValue>) -> Option<Seq<EquipmentPlacementParam>> {
    match v {
        Some(JsonValue::Array(items)) => read_placement_seq(items@),
        _ => None,
    }
}

/// A unit variant named `name`: the name itself, or an object `{name: null}`.
pub open spec fn names_variant(v: JsonValue, name: Seq<char>) -> bool {
    match v {
        JsonValue::String(s) => s@ == name,
        JsonValue::Object(entries) => entries@.len() == 1 && entries@[0].0@ == name
            && entries@[0].1 is Null,
        _ => false,
    }
}

pub open spec fn read_profile(v: Option<JsonValue>) -> Option<CaptureProfileParam> {
    match v {
        Some(x) => if names_variant(x, "inventory"@) {
            Some(CaptureProfileParam::Inventory)
        } else if names_variant(x, "combat"@) {
            Some(CaptureProfileParam::Combat)
        } else {
            None
        },
        None => None,
    }
}

pub open spec fn read_raw_capture_variant(x: JsonValue) -> Option<RawCaptureParam> {
    if names_variant(x, "enabled"@) {
        Some(RawCaptureParam::Enabled)
    } else if names_variant(x, "disabled"@) {
        Some(RawCaptureParam::Disabled)
    } else {
        None
    }
}

/// An optional field: absent or null reads as `None`.
pub open spec fn read_raw_capture(v: Option<JsonValue>) -> Option<Option<RawCaptureParam>> {
    match v {
        None => Some(None),
        Some(JsonValue::Null) => Some(None),
        Some(x) => match read_raw_capture_variant(x) {
            Some(p) => Some(Some(p)),
            None => None,
        },
    }
}

/// The device choice, tagged by `mode`.
pub open spec fn read_device(v: Option<JsonValue>) -> Option<CaptureDeviceView> {
    match v {
        Some(JsonValue::Object(entries)) => {
            let mode = as_text(lookup(entries@, "mode"@));
            if mode == Some("auto"@) {
                Some(CaptureDeviceView::Auto)
            } else if mode == Some("name"@) {
                match as_text(lookup(entries@, "name"@)) {
                    Some(name) => Some(CaptureDeviceView::Name(name)),
                    None => None,
                }
            } else {
                None
            }
        },
        Some(JsonValue::Array(items)) => {
            if items@.len() == 0 {
                None
            } else {
                let mode = as_text(Some(items@[0]));
                if mode == Some("auto"@) {
                    Some(CaptureDeviceView::Auto)
                } else if mode == Some("name"@) && items@.len() == 2 {
                    match as_text(Some(items@[1])) {
                        Some(name) => Some(CaptureDeviceView::Name(name)),
                        None => None,
                    }
                } else {
                    None
                }
            }
        },
        _ => None,
    }
}

pub open spec fn read_hello(v: JsonValue) -> Option<HelloParamsView> {
    if struct_shaped(v, 4) {
        match (
            as_text(field(v, 0, "client_name"@)),
            as_text(field(v, 1, "client_version"@)),
            read_u32(field(v, 2, "protocol_min"@)),
            read_u32(field(v, 3, "protocol_max"@)),
        ) {
            (Some(client_name), Some(client_version), Some(protocol_min), Some(protocol_max)) =>
                Some(HelloParamsView { client_name, client_version, protocol_min, protocol_max }),
            _ => None,
        }
    } else {
        None
    }
}

pub open spec fn read_capture_start(v: JsonValue) -> Option<CaptureStartView> {
    if struct_shaped(v, 5) {
        match (
            read_profile(field(v, 0, "profile"@)),
            read_device(field(v, 1, "device"@)),
            read_bool(field(v, 2, "include_incoming"@)),
            read_bool(field(v, 3, "server_damage_calibration"@)),
            read_raw_capture(field(v, 4, "raw_capture"@)),
        ) {
            (
                Some(profile),
                Some(device),
                Some(include_incoming),
                Some(server_damage_calibration),
                Some(raw_capture),
            ) => Some(
                CaptureStartView {
                    profile,
                    device,
                    include_incoming,
                    server_damage_calibration,
                    raw_capture,
                },
            ),
            _ => None,
        }
    } else {
        None
    }
}

pub open spec fn read_battle_summary(v: JsonValue) -> Option<BattleSummaryParams> {
    if struct_shaped(v, 1) {
        match read_bool(field(v, 0, "subtract_time_stop"@)) {
            Some(subtract_time_stop) => Some(BattleSummaryParams { subtract_time_stop }),
            None => None,
        }
    } else {
        None
    }
}

/// `{character, equipment, row, column}`.
pub open spec fn read_module(v: JsonValue) -> Option<(ItemUidParam, ItemUidParam, i32, i32)> {
    if struct_shaped(v, 4) {
        match (
            read_uid(field(v, 0, "character"@)),
            read_uid(field(v, 1, "equipment"@)),
            read_i32(field(v, 2, "row"@)),
            read_i32(field(v, 3, "column"@)),
        ) {
            (Some(c), Some(e), Some(r), Some(col)) => Some((c, e, r, col)),
            _ => None,
        }
    } else {
        None
    }
}

/// `{character, equipment}`.
pub open spec fn read_character_equipment(v: JsonValue) -> Option<(ItemUidParam, ItemUidParam)> {
    if struct_shaped(v, 2) {
        match (read_uid(field(v, 0, "character"@)), read_uid(field(v, 1, "equipment"@))) {
            (Some(c), Some(e)) => Some((c, e)),
            _ => None,
        }
    } else {
        None
    }
}

/// `{character}`.
pub open spec fn read_character(v: JsonValue) -> Option<ItemUidParam> {
    if struct_shaped(v, 1) {
        read_uid(field(v, 0, "character"@))
    } else {
        None
    }
}

/// `{character, placements, core}`.
pub open spec fn read_one_key(v: JsonValue) -> Option<
    (ItemUidParam, Seq<EquipmentPlacementParam>, ItemUidParam),
> {
    if struct_shaped(v, 3) {
        match (
            read_uid(field(v, 0, "character"@)),
            read_placements(field(v, 1, "placements"@)),
            read_uid(field(v, 2, "core"@)),
        ) {
            (Some(c), Some(ps), Some(core)) => Some((c, ps, core)),
            _ => None,
        }
    } else {
        None
    }
}

/// `{equipment, <flag>}`.
pub open spec fn read_flag(v: JsonValue, flag: Seq<char>) -> Option<(ItemUidParam, bool)> {
    if struct_shaped(v, 2) {
        match (read_uid(field(v, 0, "equipment"@)), read_bool(field(v, 1, flag))) {
            (Some(e), Some(b)) => Some((e, b)),
            _ => None,
        }
    } else {
        None
    }
}

// ---------------------------------------------------------------------------
// Validation rules
// ---------------------------------------------------------------------------

/// Slot and serial are nonzero and not `u32::MAX`.
pub open spec fn uid_ok(uid: ItemUidParam) -> bool {
    uid.slot != 0 && uid.serial != 0 && uid.slot != u32::MAX && uid.serial != u32::MAX
}

/// Row and column both lie in `1..=5`.
pub open spec fn grid_ok(row: i32, column: i32) -> bool {
    1 <= row <= 5 && 1 <= column <= 5
}

pub open spec fn uid_detail(field: Seq<char>) -> Seq<char> {
    field + " slot and serial must be nonzero and must not be 4294967295"@
}

pub open spec fn grid_detail() -> Seq<char> {
    "row and column must both be in the range 1..5"@
}

pub open spec fn params_detail(method: Seq<char>) -> Seq<char> {
    method + " parameters are invalid"@
}

pub open spec fn empty_params_detail() -> Seq<char> {
    "params must be an object when provided"@
}

/// The detail of the first placement that fails validation, if any.
pub open spec fn first_placement_error(ps: Seq<EquipmentPlacementParam>) -> Option<Seq<char>>
    decreases ps.len(),
{
    if ps.len() == 0 {
        None
    } else if !uid_ok(ps[0].equipment) {
        Some(uid_detail("placement equipment"@))
    } else if !grid_ok(ps[0].row, ps[0].column) {
        Some(grid_detail())
    } else {
        first_placement_error(ps.drop_first())
    }
}

/// Parameters of a method that takes none: absent (null) or an object.
pub open spec fn empty_params_ok(params: JsonValue) -> bool {
    params is Null || params is Object
}

pub open spec fn without_params(params: JsonValue, request: RequestView) -> Result<
    RequestView,
    Seq<char>,
> {
    if empty_params_ok(params) {
        Ok(request)
    } else {
        Err(empty_params_detail())
    }
}

/// Checks `character` and `equipment`, then builds the operation.
pub open spec fn with_pair(
    c: ItemUidParam,
    e: ItemUidParam,
    op: EquipmentOperationView,
) -> Result<RequestView, Seq<char>> {
    if !uid_ok(c) {
        Err(uid_detail("character"@))
    } else if !uid_ok(e) {
        Err(uid_detail("equipment"@))
    } else {
        Ok(RequestView::Equipment(op))
    }
}

/// Checks `character`, `equipment` and the grid position, then builds the operation.
pub open spec fn with_module(
    c: ItemUidParam,
    e: ItemUidParam,
    row: i32,
    column: i32,
    op: EquipmentOperationView,
) -> Result<RequestView, Seq<char>> {
    if !uid_ok(c) {
        Err(uid_detail("character"@))
    } else if !uid_ok(e) {
        Err(uid_detail("equipment"@))
    } else if !grid_ok(row, column) {
        Err(grid_detail())
    } else {
        Ok(RequestView::Equipment(op))
    }
}

/// What `parse_request(method, params)` answers: the typed request, or the
/// detail of the `Invalid params` error.
pub open spec fn spec_parse_request(method: Seq<char>, params: JsonValue) -> Result<
    RequestView,
    Seq<char>,
> {
    if method == "core.hello"@ {
        match read_hello(params) {
            None => Err("core.hello requires all handshake fields"@),
            Some(h) => if h.client_name.len() == 0 || h.client_version.len() == 0 {
                Err("client_name and client_version must not be empty"@)
            } else if h.protocol_min > h.protocol_max {
                Err("protocol_min must not exceed protocol_max"@)
            } else {
                Ok(RequestView::Hello(h))
            },
        }
    } else if method == "core.status"@ {
        without_params(params, RequestView::Status)
    } else if method == "core.shutdown"@ {
        without_params(params, RequestView::Shutdown)
    } else if method == "capture.detect"@ {
        without_params(params, RequestView::CaptureDetect)
    } else if method == "capture.start"@ {
        match read_capture_start(params) {
            None => Err("capture.start parameters are invalid"@),
            Some(p) => if p.device matches CaptureDeviceView::Name(name) && is_blank(name) {
                Err("device name must not be empty"@)
            } else {
                Ok(RequestView::CaptureStart(p))
            },
        }
    } else if method == "capture.stop"@ {
        without_params(params, RequestView::CaptureStop)
    } else if method == "inventory.get_latest"@ {
        without_params(params, RequestView::InventoryGetLatest)
    } else if method == "equipment.equip_module"@ {
        match read_module(params) {
            None => Err(params_detail(method)),
            Some((c, e, row, column)) => with_module(
                c,
                e,
                row,
                column,
                EquipmentOperationView::EquipModule { character: c, equipment: e, row, column },
            ),
        }
    } else if method == "equipment.equip_core"@ {
        match read_character_equipment(params) {
            None => Err(params_detail(method)),
            Some((c, e)) => with_pair(
                c,
                e,
                EquipmentOperationView::EquipCore { character: c, equipment: e },
            ),
        }
    } else if method == "equipment.unequip_module"@ {
        match read_character_equipment(params) {
            None => Err(params_detail(method)),
            Some((c, e)) => with_pair(
                c,
                e,
                EquipmentOperationView::UnequipModule { character: c, equipment: e },
            ),
        }
    } else if method == "equipment.unequip_core"@ {
        match read_character_equipment(params) {
            None => Err(params_detail(method)),
            Some((c, e)) => with_pair(
                c,
                e,
                EquipmentOperationView::UnequipCore { character: c, equipment: e },
            ),
        }
    } else if method == "equipment.unequip_all"@ {
        match read_character(params) {
            None => Err(params_detail(method)),
            Some(c) => if !uid_ok(c) {
                Err(uid_detail("character"@))
            } else {
                Ok(RequestView::Equipment(EquipmentOperationView::UnequipAll { character: c }))
            },
        }
    } else if method == "equipment.equip_one_key"@ {
        match read_one_key(params) {
            None => Err(params_detail(method)),
            Some((c, ps, core)) => if !uid_ok(c) {
                Err(uid_detail("character"@))
            } else if !uid_ok(core) {
                Err(uid_detail("core"@))
            } else if ps.len() == 0 || ps.len() > 64 {
                Err("placements must contain between 1 and 64 entries"@)
            } else {
                match first_placement_error(ps) {
                    Some(detail) => Err(detail),
                    None => Ok(
                        RequestView::Equipment(
                            EquipmentOperationView::EquipOneKey {
                                character: c,
                                placements: ps,
                                core,
                            },
                        ),
                    ),
                }
            },
        }
    } else if method == "equipment.move_module_to_character"@ {
        match read_module(params) {
            None => Err(params_detail(method)),
            Some((c, e, row, column)) => with_module(
                c,
                e,
                row,
                column,
                EquipmentOperationView::MoveModuleToCharacter {
                    character: c,
                    equipment: e,
                    row,
                    column,
                },
            ),
        }
    } else if method == "equipment.move_core_to_character"@ {
        match read_character_equipment(params) {
            None => Err(params_detail(method)),
            Some((c, e)) => with_pair(
                c,
                e,
                EquipmentOperationView::MoveCoreToCharacter { character: c, equipment: e },
            ),
        }
    } else if method == "equipment.set_item_discarded"@ {
        match read_flag(params, "discarded"@) {
            None => Err(params_detail(method)),
            Some((e, discarded)) => if !uid_ok(e) {
                Err(uid_detail("equipment"@))
            } else {
                Ok(
                    RequestView::Equipment(
                        EquipmentOperationView::SetItemDiscarded { equipment: e, discarded },
                    ),
                )
            },
        }
    } else if method == "equipment.set_item_locked"@ {
        match read_flag(params, "locked"@) {
            None => Err(params_detail(method)),
            Some((e, locked)) => if !uid_ok(e) {
                Err(uid_detail("equipment"@))
            } else {
                Ok(
                    RequestView::Equipment(
                        EquipmentOperationView::SetItemLocked { equipment: e, locked },
                    ),
                )
            },
        }
    } else if method == "battle.get_summary"@ {
        match read_battle_summary(params) {
            None => Err("battle.get_summary requires subtract_time_stop"@),
            Some(p) => Ok(RequestView::BattleGetSummary(p)),
        }
    } else if method == "battle.reset"@ {
        without_params(params, RequestView::BattleReset)
    } else {
        Ok(RequestView::Unknown)
    }
}

/// The method names are pairwise different.
proof fn lemma_method_names_distinct()
    ensures
        "core.hello"@ != "core.status"@,
        "core.hello"@ != "core.shutdown"@,
        "core.hello"@ != "capture.detect"@,
        "core.hello"@ != "capture.start"@,
        "core.hello"@ != "capture.stop"@,
        "core.hello"@ != "inventory.get_latest"@,
        "core.hello"@ != "equipment.equip_module"@,
        "core.hello"@ != "equipment.equip_core"@,
        "core.hello"@ != "equipment.unequip_module"@,
        "core.hello"@ != "equipment.unequip_core"@,
        "core.hello"@ != "equipment.unequip_all"@,
        "core.hello"@ != "equipment.equip_one_key"@,
        "core.hello"@ != "equipment.move_module_to_character"@,
        "core.hello"@ != "equipment.move_core_to_character"@,
        "core.hello"@ != "equipment.set_item_discarded"@,
        "core.hello"@ != "equipment.set_item_locked"@,
        "core.hello"@ != "battle.get_summary"@,
        "core.hello"@ != "battle.reset"@,
        "core.status"@ != "core.shutdown"@,
        "core.status"@ != "capture.detect"@,
        "core.status"@ != "capture.start"@,
        "core.status"@ != "capture.stop"@,
        "core.status"@ != "inventory.get_latest"@,
        "core.status"@ != "equipment.equip_module"@,
        "core.status"@ != "equipment.equip_core"@,
        "core.status"@ != "equipment.unequip_module"@,
        "core.status"@ != "equipment.unequip_core"@,
        "core.status"@ != "equipment.unequip_all"@,
        "core.status"@ != "equipment.equip_one_key"@,
        "core.status"@ != "equipment.move_module_to_character"@,
        "core.status"@ != "equipment.move_core_to_character"@,
        "core.status"@ != "equipment.set_item_discarded"@,
        "core.status"@ != "equipment.set_item_locked"@,
        "core.status"@ != "battle.get_summary"@,
        "core.status"@ != "battle.reset"@,
        "core.shutdown"@ != "capture.detect"@,
        "core.shutdown"@ != "capture.start"@,
        "core.shutdown"@ != "capture.stop"@,
        "core.shutdown"@ != "inventory.get_latest"@,
        "core.shutdown"@ != "equipment.equip_module"@,
        "core.shutdown"@ != "equipment.equip_core"@,
        "core.shutdown"@ != "equipment.unequip_module"@,
        "core.shutdown"@ != "equipment.unequip_core"@,
        "core.shutdown"@ != "equipment.unequip_all"@,
        "core.shutdown"@ != "equipment.equip_one_key"@,
        "core.shutdown"@ != "equipment.move_module_to_character"@,
        "core.shutdown"@ != "equipment.move_core_to_character"@,
        "core.shutdown"@ != "equipment.set_item_discarded"@,
        "core.shutdown"@ != "equipment.set_item_locked"@,
        "core.shutdown"@ != "battle.get_summary"@,
        "core.shutdown"@ != "battle.reset"@,
        "capture.detect"@ != "capture.start"@,
        "capture.detect"@ != "capture.stop"@,
        "capture.detect"@ != "inventory.get_latest"@,
        "capture.detect"@ != "equipment.equip_module"@,
        "capture.detect"@ != "equipment.equip_core"@,
        "capture.detect"@ != "equipment.unequip_module"@,
        "capture.detect"@ != "equipment.unequip_core"@,
        "capture.detect"@ != "equipment.unequip_all"@,
        "capture.detect"@ != "equipment.equip_one_key"@,
        "capture.detect"@ != "equipment.move_module_to_character"@,
        "capture.detect"@ != "equipment.move_core_to_character"@,
        "capture.detect"@ != "equipment.set_item_discarded"@,
        "capture.detect"@ != "equipment.set_item_locked"@,
        "capture.detect"@ != "battle.get_summary"@,
        "capture.detect"@ != "battle.reset"@,
        "capture.start"@ != "capture.stop"@,
        "capture.start"@ != "inventory.get_latest"@,
        "capture.start"@ != "equipment.equip_module"@,
        "capture.start"@ != "equipment.equip_core"@,
        "capture.start"@ != "equipment.unequip_module"@,
        "capture.start"@ != "equipment.unequip_core"@,
        "capture.start"@ != "equipment.unequip_all"@,
        "capture.start"@ != "equipment.equip_one_key"@,
        "capture.start"@ != "equipment.move_module_to_character"@,
        "capture.start"@ != "equipment.move_core_to_character"@,
        "capture.start"@ != "equipment.set_item_discarded"@,
        "capture.start"@ != "equipment.set_item_locked"@,
        "capture.start"@ != "battle.get_summary"@,
        "capture.start"@ != "battle.reset"@,
        "capture.stop"@ != "inventory.get_latest"@,
        "capture.stop"@ != "equipment.equip_module"@,
        "capture.stop"@ != "equipment.equip_core"@,
        "capture.stop"@ != "equipment.unequip_module"@,
        "capture.stop"@ != "equipment.unequip_core"@,
        "capture.stop"@ != "equipment.unequip_all"@,
        "capture.stop"@ != "equipment.equip_one_key"@,
        "capture.stop"@ != "equipment.move_module_to_character"@,
        "capture.stop"@ != "equipment.move_core_to_character"@,
        "capture.stop"@ != "equipment.set_item_discarded"@,
        "capture.stop"@ != "equipment.set_item_locked"@,
        "capture.stop"@ != "battle.get_summary"@,
        "capture.stop"@ != "battle.reset"@,
        "inventory.get_latest"@ != "equipment.equip_module"@,
        "inventory.get_latest"@ != "equipment.equip_core"@,
        "inventory.get_latest"@ != "equipment.unequip_module"@,
        "inventory.get_latest"@ != "equipment.unequip_core"@,
        "inventory.get_latest"@ != "equipment.unequip_all"@,
        "inventory.get_latest"@ != "equipment.equip_one_key"@,
        "inventory.get_latest"@ != "equipment.move_module_to_character"@,
        "inventory.get_latest"@ != "equipment.move_core_to_character"@,
        "inventory.get_latest"@ != "equipment.set_item_discarded"@,
        "inventory.get_latest"@ != "equipment.set_item_locked"@,
        "inventory.get_latest"@ != "battle.get_summary"@,
        "inventory.get_latest"@ != "battle.reset"@,
        "equipment.equip_module"@ != "equipment.equip_core"@,
        "equipment.equip_module"@ != "equipment.unequip_module"@,
        "equipment.equip_module"@ != "equipment.unequip_core"@,
        "equipment.equip_module"@ != "equipment.unequip_all"@,
        "equipment.equip_module"@ != "equipment.equip_one_key"@,
        "equipment.equip_module"@ != "equipment.move_module_to_character"@,
        "equipment.equip_module"@ != "equipment.move_core_to_character"@,
        "equipment.equip_module"@ != "equipment.set_item_discarded"@,
        "equipment.equip_module"@ != "equipment.set_item_locked"@,
        "equipment.equip_module"@ != "battle.get_summary"@,
        "equipment.equip_module"@ != "battle.reset"@,
        "equipment.equip_core"@ != "equipment.unequip_module"@,
        "equipment.equip_core"@ != "equipment.unequip_core"@,
        "equipment.equip_core"@ != "equipment.unequip_all"@,
        "equipment.equip_core"@ != "equipment.equip_one_key"@,
        "equipment.equip_core"@ != "equipment.move_module_to_character"@,
        "equipment.equip_core"@ != "equipment.move_core_to_character"@,
        "equipment.equip_core"@ != "equipment.set_item_discarded"@,
        "equipment.equip_core"@ != "equipment.set_item_locked"@,
        "equipment.equip_core"@ != "battle.get_summary"@,
        "equipment.equip_core"@ != "battle.reset"@,
        "equipment.unequip_module"@ != "equipment.unequip_core"@,
        "equipment.unequip_module"@ != "equipment.unequip_all"@,
        "equipment.unequip_module"@ != "equipment.equip_one_key"@,
        "equipment.unequip_module"@ != "equipment.move_module_to_character"@,
        "equipment.unequip_module"@ != "equipment.move_core_to_character"@,
        "equipment.unequip_module"@ != "equipment.set_item_discarded"@,
        "equipment.unequip_module"@ != "equipment.set_item_locked"@,
        "equipment.unequip_module"@ != "battle.get_summary"@,
        "equipment.unequip_module"@ != "battle.reset"@,
        "equipment.unequip_core"@ != "equipment.unequip_all"@,
        "equipment.unequip_core"@ != "equipment.equip_one_key"@,
        "equipment.unequip_core"@ != "equipment.move_module_to_character"@,
        "equipment.unequip_core"@ != "equipment.move_core_to_character"@,
        "equipment.unequip_core"@ != "equipment.set_item_discarded"@,
        "equipment.unequip_core"@ != "equipment.set_item_locked"@,
        "equipment.unequip_core"@ != "battle.get_summary"@,
        "equipment.unequip_core"@ != "battle.reset"@,
        "equipment.unequip_all"@ != "equipment.equip_one_key"@,
        "equipment.unequip_all"@ != "equipment.move_module_to_character"@,
        "equipment.unequip_all"@ != "equipment.move_core_to_character"@,
        "equipment.unequip_all"@ != "equipment.set_item_discarded"@,
        "equipment.unequip_all"@ != "equipment.set_item_locked"@,
        "equipment.unequip_all"@ != "battle.get_summary"@,
        "equipment.unequip_all"@ != "battle.reset"@,
        "equipment.equip_one_key"@ != "equipment.move_module_to_character"@,
        "equipment.equip_one_key"@ != "equipment.move_core_to_character"@,
        "equipment.equip_one_key"@ != "equipment.set_item_discarded"@,
        "equipment.equip_one_key"@ != "equipment.set_item_locked"@,
        "equipment.equip_one_key"@ != "battle.get_summary"@,
        "equipment.equip_one_key"@ != "battle.reset"@,
        "equipment.move_module_to_character"@ != "equipment.move_core_to_character"@,
        "equipment.move_module_to_character"@ != "equipment.set_item_discarded"@,
        "equipment.move_module_to_character"@ != "equipment.set_item_locked"@,
        "equipment.move_module_to_character"@ != "battle.get_summary"@,
        "equipment.move_module_to_character"@ != "battle.reset"@,
        "equipment.move_core_to_character"@ != "equipment.set_item_discarded"@,
        "equipment.move_core_to_character"@ != "equipment.set_item_locked"@,
        "equipment.move_core_to_character"@ != "battle.get_summary"@,
        "equipment.move_core_to_character"@ != "battle.reset"@,
        "equipment.set_item_discarded"@ != "equipment.set_item_locked"@,
        "equipment.set_item_discarded"@ != "battle.get_summary"@,
        "equipment.set_item_discarded"@ != "battle.reset"@,
        "equipment.set_item_locked"@ != "battle.get_summary"@,
        "equipment.set_item_locked"@ != "battle.reset"@,
        "battle.get_summary"@ != "battle.reset"@,
{
    reveal_strlit("core.hello");
    reveal_strlit("core.status");
    reveal_strlit("core.shutdown");
    reveal_strlit("capture.detect");
    reveal_strlit("capture.start");
    reveal_strlit("capture.stop");
    reveal_strlit("inventory.get_latest");
    reveal_strlit("equipment.equip_module");
    reveal_strlit("equipment.equip_core");
    reveal_strlit("equipment.unequip_module");
    reveal_strlit("equipment.unequip_core");
    reveal_strlit("equipment.unequip_all");
    reveal_strlit("equipment.equip_one_key");
    reveal_strlit("equipment.move_module_to_character");
    reveal_strlit("equipment.move_core_to_character");
    reveal_strlit("equipment.set_item_discarded");
    reveal_strlit("equipment.set_item_locked");
    reveal_strlit("battle.get_summary");
    reveal_strlit("battle.reset");
    assert("core.hello"@.len() != "core.status"@.len());
    assert("core.hello"@.len() != "core.shutdown"@.len());
    assert("core.hello"@.len() != "capture.detect"@.len());
    assert("core.hello"@.len() != "capture.start"@.len());
    assert("core.hello"@.len() != "capture.stop"@.len());
    assert("core.hello"@.len() != "inventory.get_latest"@.len());
    assert("core.hello"@.len() != "equipment.equip_module"@.len());
    assert("core.hello"@.len() != "equipment.equip_core"@.len());
    assert("core.hello"@.len() != "equipment.unequip_module"@.len());
    assert("core.hello"@.len() != "equipment.unequip_core"@.len());
    assert("core.hello"@.len() != "equipment.unequip_all"@.len());
    assert("core.hello"@.len() != "equipment.equip_one_key"@.len());
    assert("core.hello"@.len() != "equipment.move_module_to_character"@.len());
    assert("core.hello"@.len() != "equipment.move_core_to_character"@.len());
    assert("core.hello"@.len() != "equipment.set_item_discarded"@.len());
    assert("core.hello"@.len() != "equipment.set_item_locked"@.len());
    assert("core.hello"@.len() != "battle.get_summary"@.len());
    assert("core.hello"@.len() != "battle.reset"@.len());
    assert("core.status"@.len() != "core.shutdown"@.len());
    assert("core.status"@.len() != "capture.detect"@.len());
    assert("core.status"@.len() != "capture.start"@.len());
    assert("core.status"@.len() != "capture.stop"@.len());
    assert("core.status"@.len() != "inventory.get_latest"@.len());
    assert("core.status"@.len() != "equipment.equip_module"@.len());
    assert("core.status"@.len() != "equipment.equip_core"@.len());
    assert("core.status"@.len() != "equipment.unequip_module"@.len());
    assert("core.status"@.len() != "equipment.unequip_core"@.len());
    assert("core.status"@.len() != "equipment.unequip_all"@.len());
    assert("core.status"@.len() != "equipment.equip_one_key"@.len());
    assert("core.status"@.len() != "equipment.move_module_to_character"@.len());
    assert("core.status"@.len() != "equipment.move_core_to_character"@.len());
    assert("core.status"@.len() != "equipment.set_item_discarded"@.len());
    assert("core.status"@.len() != "equipment.set_item_locked"@.len());
    assert("core.status"@.len() != "battle.get_summary"@.len());
    assert("core.status"@.len() != "battle.reset"@.len());
    assert("core.shutdown"@.len() != "capture.detect"@.len());
    assert("core.shutdown"@[1] != "capture.start"@[1]);
    assert("core.shutdown"@.len() != "capture.stop"@.len());
    assert("core.shutdown"@.len() != "inventory.get_latest"@.len());
    assert("core.shutdown"@.len() != "equipment.equip_module"@.len());
    assert("core.shutdown"@.len() != "equipment.equip_core"@.len());
    assert("core.shutdown"@.len() != "equipment.unequip_module"@.len());
    assert("core.shutdown"@.len() != "equipment.unequip_core"@.len());
    assert("core.shutdown"@.len() != "equipment.unequip_all"@.len());
    assert("core.shutdown"@.len() != "equipment.equip_one_key"@.len());
    assert("core.shutdown"@.len() != "equipment.move_module_to_character"@.len());
    assert("core.shutdown"@.len() != "equipment.move_core_to_character"@.len());
    assert("core.shutdown"@.len() != "equipment.set_item_discarded"@.len());
    assert("core.shutdown"@.len() != "equipment.set_item_locked"@.len());
    assert("core.shutdown"@.len() != "battle.get_summary"@.len());
    assert("core.shutdown"@.len() != "battle.reset"@.len());
    assert("capture.detect"@.len() != "capture.start"@.len());
    assert("capture.detect"@.len() != "capture.stop"@.len());
    assert("capture.detect"@.len() != "inventory.get_latest"@.len());
    assert("capture.detect"@.len() != "equipment.equip_module"@.len());
    assert("capture.detect"@.len() != "equipment.equip_core"@.len());
    assert("capture.detect"@.len() != "equipment.unequip_module"@.len());
    assert("capture.detect"@.len() != "equipment.unequip_core"@.len());
    assert("capture.detect"@.len() != "equipment.unequip_all"@.len());
    assert("capture.detect"@.len() != "equipment.equip_one_key"@.len());
    assert("capture.detect"@.len() != "equipment.move_module_to_character"@.len());
    assert("capture.detect"@.len() != "equipment.move_core_to_character"@.len());
    assert("capture.detect"@.len() != "equipment.set_item_discarded"@.len());
    assert("capture.detect"@.len() != "equipment.set_item_locked"@.len());
    assert("capture.detect"@.len() != "battle.get_summary"@.len());
    assert("capture.detect"@.len() != "battle.reset"@.len());
    assert("capture.start"@.len() != "capture.stop"@.len());
    assert("capture.start"@.len() != "inventory.get_latest"@.len());
    assert("capture.start"@.len() != "equipment.equip_module"@.len());
    assert("capture.start"@.len() != "equipment.equip_core"@.len());
    assert("capture.start"@.len() != "equipment.unequip_module"@.len());
    assert("capture.start"@.len() != "equipment.unequip_core"@.len());
    assert("capture.start"@.len() != "equipment.unequip_all"@.len());
    assert("capture.start"@.len() != "equipment.equip_one_key"@.len());
    assert("capture.start"@.len() != "equipment.move_module_to_character"@.len());
    assert("capture.start"@.len() != "equipment.move_core_to_character"@.len());
    assert("capture.start"@.len() != "equipment.set_item_discarded"@.len());
    assert("capture.start"@.len() != "equipment.set_item_locked"@.len());
    assert("capture.start"@.len() != "battle.get_summary"@.len());
    assert("capture.start"@.len() != "battle.reset"@.len());
    assert("capture.stop"@.len() != "inventory.get_latest"@.len());
    assert("capture.stop"@.len() != "equipment.equip_module"@.len());
    assert("capture.stop"@.len() != "equipment.equip_core"@.len());
    assert("capture.stop"@.len() != "equipment.unequip_module"@.len());
    assert("capture.stop"@.len() != "equipment.unequip_core"@.len());
    assert("capture.stop"@.len() != "equipment.unequip_all"@.len());
    assert("capture.stop"@.len() != "equipment.equip_one_key"@.len());
    assert("capture.stop"@.len() != "equipment.move_module_to_character"@.len());
    assert("capture.stop"@.len() != "equipment.move_core_to_character"@.len());
    assert("capture.stop"@.len() != "equipment.set_item_discarded"@.len());
    assert("capture.stop"@.len() != "equipment.set_item_locked"@.len());
    assert("capture.stop"@.len() != "battle.get_summary"@.len());
    assert("capture.stop"@[0] != "battle.reset"@[0]);
    assert("inventory.get_latest"@.len() != "equipment.equip_module"@.len());
    assert("inventory.get_latest"@[0] != "equipment.equip_core"@[0]);
    assert("inventory.get_latest"@.len() != "equipment.unequip_module"@.len());
    assert("inventory.get_latest"@.len() != "equipment.unequip_core"@.len());
    assert("inventory.get_latest"@.len() != "equipment.unequip_all"@.len());
    assert("inventory.get_latest"@.len() != "equipment.equip_one_key"@.len());
    assert("inventory.get_latest"@.len() != "equipment.move_module_to_character"@.len());
    assert("inventory.get_latest"@.len() != "equipment.move_core_to_character"@.len());
    assert("inventory.get_latest"@.len() != "equipment.set_item_discarded"@.len());
    assert("inventory.get_latest"@.len() != "equipment.set_item_locked"@.len());
    assert("inventory.get_latest"@.len() != "battle.get_summary"@.len());
    assert("inventory.get_latest"@.len() != "battle.reset"@.len());
    assert("equipment.equip_module"@.len() != "equipment.equip_core"@.len());
    assert("equipment.equip_module"@.len() != "equipment.unequip_module"@.len());
    assert("equipment.equip_module"@[10] != "equipment.unequip_core"@[10]);
    assert("equipment.equip_module"@.len() != "equipment.unequip_all"@.len());
    assert("equipment.equip_module"@.len() != "equipment.equip_one_key"@.len());
    assert("equipment.equip_module"@.len() != "equipment.move_module_to_character"@.len());
    assert("equipment.equip_module"@.len() != "equipment.move_core_to_character"@.len());
    assert("equipment.equip_module"@.len() != "equipment.set_item_discarded"@.len());
    assert("equipment.equip_module"@.len() != "equipment.set_item_locked"@.len());
    assert("equipment.equip_module"@.len() != "battle.get_summary"@.len());
    assert("equipment.equip_module"@.len() != "battle.reset"@.len());
    assert("equipment.equip_core"@.len() != "equipment.unequip_module"@.len());
    assert("equipment.equip_core"@.len() != "equipment.unequip_core"@.len());
    assert("equipment.equip_core"@.len() != "equipment.unequip_all"@.len());
    assert("equipment.equip_core"@.len() != "equipment.equip_one_key"@.len());
    assert("equipment.equip_core"@.len() != "equipment.move_module_to_character"@.len());
    assert("equipment.equip_core"@.len() != "equipment.move_core_to_character"@.len());
    assert("equipment.equip_core"@.len() != "equipment.set_item_discarded"@.len());
    assert("equipment.equip_core"@.len() != "equipment.set_item_locked"@.len());
    assert("equipment.equip_core"@.len() != "battle.get_summary"@.len());
    assert("equipment.equip_core"@.len() != "battle.reset"@.len());
    assert("equipment.unequip_module"@.len() != "equipment.unequip_core"@.len());
    assert("equipment.unequip_module"@.len() != "equipment.unequip_all"@.len());
    assert("equipment.unequip_module"@.len() != "equipment.equip_one_key"@.len());
    assert("equipment.unequip_module"@.len() != "equipment.move_module_to_character"@.len());
    assert("equipment.unequip_module"@.len() != "equipment.move_core_to_character"@.len());
    assert("equipment.unequip_module"@.len() != "equipment.set_item_discarded"@.len());
    assert("equipment.unequip_module"@.len() != "equipment.set_item_locked"@.len());
    assert("equipment.unequip_module"@.len() != "battle.get_summary"@.len());
    assert("equipment.unequip_module"@.len() != "battle.reset"@.len());
    assert("equipment.unequip_core"@.len() != "equipment.unequip_all"@.len());
    assert("equipment.unequip_core"@.len() != "equipment.equip_one_key"@.len());
    assert("equipment.unequip_core"@.len() != "equipment.move_module_to_character"@.len());
    assert("equipment.unequip_core"@.len() != "equipment.move_core_to_character"@.len());
    assert("equipment.unequip_core"@.len() != "equipment.set_item_discarded"@.len());
    assert("equipment.unequip_core"@.len() != "equipment.set_item_locked"@.len());
    assert("equipment.unequip_core"@.len() != "battle.get_summary"@.len());
    assert("equipment.unequip_core"@.len() != "battle.reset"@.len());
    assert("equipment.unequip_all"@.len() != "equipment.equip_one_key"@.len());
    assert("equipment.unequip_all"@.len() != "equipment.move_module_to_character"@.len());
    assert("equipment.unequip_all"@.len() != "equipment.move_core_to_character"@.len());
    assert("equipment.unequip_all"@.len() != "equipment.set_item_discarded"@.len());
    assert("equipment.unequip_all"@.len() != "equipment.set_item_locked"@.len());
    assert("equipment.unequip_all"@.len() != "battle.get_summary"@.len());
    assert("equipment.unequip_all"@.len() != "battle.reset"@.len());
    assert("equipment.equip_one_key"@.len() != "equipment.move_module_to_character"@.len());
    assert("equipment.equip_one_key"@.len() != "equipment.move_core_to_character"@.len());
    assert("equipment.equip_one_key"@.len() != "equipment.set_item_discarded"@.len());
    assert("equipment.equip_one_key"@.len() != "equipment.set_item_locked"@.len());
    assert("equipment.equip_one_key"@.len() != "battle.get_summary"@.len());
    assert("equipment.equip_one_key"@.len() != "battle.reset"@.len());
    assert("equipment.move_module_to_character"@.len() != "equipment.move_core_to_character"@.len());
    assert("equipment.move_module_to_character"@.len() != "equipment.set_item_discarded"@.len());
    assert("equipment.move_module_to_character"@.len() != "equipment.set_item_locked"@.len());
    assert("equipment.move_module_to_character"@.len() != "battle.get_summary"@.len());
    assert("equipment.move_module_to_character"@.len() != "battle.reset"@.len());
    assert("equipment.move_core_to_character"@.len() != "equipment.set_item_discarded"@.len());
    assert("equipment.move_core_to_character"@.len() != "equipment.set_item_locked"@.len());
    assert("equipment.move_core_to_character"@.len() != "battle.get_summary"@.len());
    assert("equipment.move_core_to_character"@.len() != "battle.reset"@.len());
    assert("equipment.set_item_discarded"@.len() != "equipment.set_item_locked"@.len());
    assert("equipment.set_item_discarded"@.len() != "battle.get_summary"@.len());
    assert("equipment.set_item_discarded"@.len() != "battle.reset"@.len());
    assert("equipment.set_item_locked"@.len() != "battle.get_summary"@.len());
    assert("equipment.set_item_locked"@.len() != "battle.reset"@.len());
    assert("battle.get_summary"@.len() != "battle.reset"@.len());
}

/// The method whose requests carry operation `op`.
pub open spec fn operation_method(op: EquipmentOperationView) -> Seq<char> {
    match op {
        EquipmentOperationView::EquipModule { .. } => "equipment.equip_module"@,
        EquipmentOperationView::EquipCore { .. } => "equipment.equip_core"@,
        EquipmentOperationView::UnequipModule { .. } => "equipment.unequip_module"@,
        EquipmentOperationView::UnequipCore { .. } => "equipment.unequip_core"@,
        EquipmentOperationView::UnequipAll { .. } => "equipment.unequip_all"@,
        EquipmentOperationView::EquipOneKey { .. } => "equipment.equip_one_key"@,
        EquipmentOperationView::MoveModuleToCharacter { .. } => "equipment.move_module_to_character"@,
        EquipmentOperationView::MoveCoreToCharacter { .. } => "equipment.move_core_to_character"@,
        EquipmentOperationView::SetItemDiscarded { .. } => "equipment.set_item_discarded"@,
        EquipmentOperationView::SetItemLocked { .. } => "equipment.set_item_locked"@,
    }
}

/// Every accepted equipment request carries the operation its method names.
pub proof fn law_equipment_operation_matches_method(method: Seq<char>, params: JsonValue)
    ensures
        spec_parse_request(method, params) matches Ok(RequestView::Equipment(op)) ==> method
            == operation_method(op),
{
}

/// Member `key` of `v` is an object whose `slot` and `serial` are `uid`'s.
pub open spec fn has_uid_member(v: JsonValue, key: Seq<char>, uid: ItemUidParam) -> bool {
    &&& member(v, key) is Some
    &&& member(member(v, key)->0, "slot"@) == Some(JsonValue::Number(JsonNumber::PosInt(uid.slot as u64)))
    &&& member(member(v, key)->0, "serial"@) == Some(
        JsonValue::Number(JsonNumber::PosInt(uid.serial as u64)),
    )
}

/// Parameters `{character, equipment}` with valid uids are accepted by each
/// method that takes that pair, as that method's own operation on exactly
/// the given character and equipment.
pub proof fn law_pair_operations(params: JsonValue, c: ItemUidParam, e: ItemUidParam)
    requires
        params is Object,
        has_uid_member(params, "character"@, c),
        has_uid_member(params, "equipment"@, e),
        uid_ok(c),
        uid_ok(e),
    ensures
        spec_parse_request("equipment.equip_core"@, params) == Ok::<RequestView, Seq<char>>(
            RequestView::Equipment(EquipmentOperationView::EquipCore { character: c, equipment: e }),
        ),
        spec_parse_request("equipment.unequip_module"@, params) == Ok::<RequestView, Seq<char>>(
            RequestView::Equipment(EquipmentOperationView::UnequipModule { character: c, equipment: e }),
        ),
        spec_parse_request("equipment.unequip_core"@, params) == Ok::<RequestView, Seq<char>>(
            RequestView::Equipment(EquipmentOperationView::UnequipCore { character: c, equipment: e }),
        ),
        spec_parse_request("equipment.move_core_to_character"@, params) == Ok::<RequestView, Seq<char>>(
            RequestView::Equipment(
                EquipmentOperationView::MoveCoreToCharacter { character: c, equipment: e },
            ),
        ),
{
    lemma_method_names_distinct();
    assert(read_character_equipment(params) == Some((c, e)));
}

/// Member `key` of `v` is the non-negative integer `n`.
pub open spec fn has_number_member(v: JsonValue, key: Seq<char>, n: u64) -> bool {
    member(v, key) == Some(JsonValue::Number(JsonNumber::PosInt(n)))
}

/// Parameters `{character, equipment, row, column}` with valid uids are
/// accepted by the two module methods, each as its own operation on exactly
/// the given items and grid cell, when row and column lie in `1..=5`, and
/// refused otherwise.
pub proof fn law_module_operations(params: JsonValue, c: ItemUidParam, e: ItemUidParam, row: u64, column: u64)
    requires
        params is Object,
        has_uid_member(params, "character"@, c),
        has_uid_member(params, "equipment"@, e),
        has_number_member(params, "row"@, row),
        has_number_member(params, "column"@, column),
        uid_ok(c),
        uid_ok(e),
        row <= i32::MAX,
        column <= i32::MAX,
    ensures
        1 <= row <= 5 && 1 <= column <= 5 ==> spec_parse_request("equipment.equip_module"@, params) == Ok::<RequestView, Seq<char>>(RequestView::Equipment(EquipmentOperationView::EquipModule { character: c, equipment: e, row: row as i32, column: column as i32 })),
        1 <= row <= 5 && 1 <= column <= 5 ==> spec_parse_request("equipment.move_module_to_character"@, params) == Ok::<RequestView, Seq<char>>(RequestView::Equipment(EquipmentOperationView::MoveModuleToCharacter { character: c, equipment: e, row: row as i32, column: column as i32 })),
        !(1 <= row <= 5 && 1 <= column <= 5) ==> spec_parse_request("equipment.equip_module"@, params) is Err,
        !(1 <= row <= 5 && 1 <= column <= 5) ==> spec_parse_request("equipment.move_module_to_character"@, params) is Err,
{
    lemma_method_names_distinct();
    assert(read_module(params) == Some((c, e, row as i32, column as i32)));
}

/// A request on a character and an item is refused when either uid is
/// invalid (zero or `u32::MAX` in its slot or serial).
pub proof fn law_pair_uids_checked(method: Seq<char>, params: JsonValue, c: ItemUidParam, e: ItemUidParam)
    requires
        params is Object,
        has_uid_member(params, "character"@, c),
        has_uid_member(params, "equipment"@, e),
        !uid_ok(c) || !uid_ok(e),
        method == "equipment.equip_core"@ || method == "equipment.unequip_module"@ || method
            == "equipment.unequip_core"@ || method == "equipment.move_core_to_character"@ || method
            == "equipment.equip_module"@ || method == "equipment.move_module_to_character"@,
    ensures
        spec_parse_request(method, params) is Err,
{
    lemma_method_names_distinct();
    assert(read_character_equipment(params) == Some((c, e)));
}

/// `equipment.unequip_all` takes off everything of exactly the given
/// character when its uid is valid, and is refused otherwise.
pub proof fn law_unequip_all(params: JsonValue, c: ItemUidParam)
    requires
        params is Object,
        has_uid_member(params, "character"@, c),
    ensures
        uid_ok(c) ==> spec_parse_request("equipment.unequip_all"@, params) == Ok::<RequestView, Seq<char>>(RequestView::Equipment(EquipmentOperationView::UnequipAll { character: c })),
        !uid_ok(c) ==> spec_parse_request("equipment.unequip_all"@, params) is Err,
{
    lemma_method_names_distinct();
    assert(read_character(params) == Some(c));
}

/// The discard and lock methods set exactly the given flag on exactly the
/// given item when its uid is valid, and are refused otherwise.
pub proof fn law_flag_operations(params: JsonValue, e: ItemUidParam, discarded: bool, locked: bool)
    requires
        params is Object,
        has_uid_member(params, "equipment"@, e),
        member(params, "discarded"@) == Some(JsonValue::Bool(discarded)),
        member(params, "locked"@) == Some(JsonValue::Bool(locked)),
    ensures
        uid_ok(e) ==> spec_parse_request("equipment.set_item_discarded"@, params) == Ok::<RequestView, Seq<char>>(RequestView::Equipment(EquipmentOperationView::SetItemDiscarded { equipment: e, discarded })),
        uid_ok(e) ==> spec_parse_request("equipment.set_item_locked"@, params) == Ok::<RequestView, Seq<char>>(RequestView::Equipment(EquipmentOperationView::SetItemLocked { equipment: e, locked })),
        !uid_ok(e) ==> spec_parse_request("equipment.set_item_discarded"@, params) is Err,
        !uid_ok(e) ==> spec_parse_request("equipment.set_item_locked"@, params) is Err,
{
    lemma_method_names_distinct();
    assert(read_flag(params, "discarded"@) == Some((e, discarded)));
    assert(read_flag(params, "locked"@) == Some((e, locked)));
}

/// The methods that take no parameters accept absent or object parameters
/// as their own request, and refuse any other parameters.
pub proof fn law_methods_without_params(params: JsonValue)
    ensures
        params is Null || params is Object ==> {
            &&& spec_parse_request("core.status"@, params) == Ok::<RequestView, Seq<char>>(RequestView::Status)
            &&& spec_parse_request("core.shutdown"@, params) == Ok::<RequestView, Seq<char>>(RequestView::Shutdown)
            &&& spec_parse_request("capture.detect"@, params) == Ok::<RequestView, Seq<char>>(RequestView::CaptureDetect)
            &&& spec_parse_request("capture.stop"@, params) == Ok::<RequestView, Seq<char>>(RequestView::CaptureStop)
            &&& spec_parse_request("inventory.get_latest"@, params) == Ok::<RequestView, Seq<char>>(RequestView::InventoryGetLatest)
            &&& spec_parse_request("battle.reset"@, params) == Ok::<RequestView, Seq<char>>(RequestView::BattleReset)
        },
        !(params is Null || params is Object) ==> {
            &&& spec_parse_request("core.status"@, params) is Err
            &&& spec_parse_request("core.shutdown"@, params) is Err
            &&& spec_parse_request("capture.detect"@, params) is Err
            &&& spec_parse_request("capture.stop"@, params) is Err
            &&& spec_parse_request("inventory.get_latest"@, params) is Err
            &&& spec_parse_request("battle.reset"@, params) is Err
        },
{
    lemma_method_names_distinct();
}

/// A method that is none of the protocol's is accepted as an unknown
/// request, whatever its parameters.
pub proof fn law_unknown_methods(method: Seq<char>, params: JsonValue)
    requires
        method != "core.hello"@,
        method != "core.status"@,
        method != "core.shutdown"@,
        method != "capture.detect"@,
        method != "capture.start"@,
        method != "capture.stop"@,
        method != "inventory.get_latest"@,
        method != "equipment.equip_module"@,
        method != "equipment.equip_core"@,
        method != "equipment.unequip_module"@,
        method != "equipment.unequip_core"@,
        method != "equipment.unequip_all"@,
        method != "equipment.equip_one_key"@,
        method != "equipment.move_module_to_character"@,
        method != "equipment.move_core_to_character"@,
        method != "equipment.set_item_discarded"@,
        method != "equipment.set_item_locked"@,
        method != "battle.get_summary"@,
        method != "battle.reset"@,
    ensures
        spec_parse_request(method, params) == Ok::<RequestView, Seq<char>>(RequestView::Unknown),
{
}

// ---------------------------------------------------------------------------
// Executable readers
// ---------------------------------------------------------------------------

fn field_of<'a>(v: &'a JsonValue, i: usize, name: &str) -> (r: Option<&'a JsonValue>)
    ensures
        deref_opt(r) == field(*v, i as int, name@),
{
    match v {
        JsonValue::Object(entries) => get_member(entries, name),
        JsonValue::Array(items) => {
            if i < items.len() {
                Some(&items[i])
            } else {
                None
            }
        },
        _ => None,
    }
}

fn shaped(v: &JsonValue, n: usize) -> (r: bool)
    ensures
        r == struct_shaped(*v, n as nat),
{
    match v {
        JsonValue::Object(_) => true,
        JsonValue::Array(items) => items.len() == n,
        _ => false,
    }
}

fn u32_of(v: Option<&JsonValue>) -> (r: Option<u32>)
    ensures
        r == read_u32(deref_opt(v)),
{
    match v {
        Some(JsonValue::Number(JsonNumber::PosInt(n))) => {
            if *n <= u32::MAX as u64 {
                Some(*n as u32)
            } else {
                None
            }
        },
        Some(JsonValue::Number(JsonNumber::NegInt(n))) => {
            if 0 <= *n && *n <= u32::MAX as i64 {
                Some(*n as u32)
            } else {
                None
            }
        },
        _ => None,
    }
}

fn i32_of(v: Option<&JsonValue>) -> (r: Option<i32>)
    ensures
        r == read_i32(deref_opt(v)),
{
    match v {
        Some(JsonValue::Number(JsonNumber::PosInt(n))) => {
            if *n <= i32::MAX as u64 {
                Some(*n as i32)
            } else {
                None
            }
        },
        Some(JsonValue::Number(JsonNumber::NegInt(n))) => {
            if i32::MIN as i64 <= *n && *n <= i32::MAX as i64 {
                Some(*n as i32)
            } else {
                None
            }
        },
        _ => None,
    }
}

fn bool_of(v: Option<&JsonValue>) -> (r: Option<bool>)
    ensures
        r == read_bool(deref_opt(v)),
{
    match v {
        Some(JsonValue::Bool(b)) => Some(*b),
        _ => None,
    }
}

fn string_of_value(v: Option<&JsonValue>) -> (r: Option<String>)
    ensures
        r is None <==> as_text(deref_opt(v)) is None,
        r matches Some(s) ==> as_text(deref_opt(v)) == Some(s@),
{
    match v {
        Some(JsonValue::String(s)) => Some(s.clone()),
        _ => None,
    }
}

fn uid_of(v: Option<&JsonValue>) -> (r: Option<ItemUidParam>)
    ensures
        r == read_uid(deref_opt(v)),
{
    let x = match v {
        Some(x) => x,
        None => return None,
    };
    if !shaped(x, 2) {
        return None;
    }
    let slot = u32_of(field_of(x, 0, "slot"));
    let serial = u32_of(field_of(x, 1, "serial"));
    match (slot, serial) {
        (Some(slot), Some(serial)) => Some(ItemUidParam { slot, serial }),
        _ => None,
    }
}

fn placement_of(v: Option<&JsonValue>) -> (r: Option<EquipmentPlacementParam>)
    ensures
        r == read_placement(deref_opt(v)),
{
    let x = match v {
        Some(x) => x,
        None => return None,
    };
    if !shaped(x, 3) {
        return None;
    }
    let equipment = uid_of(field_of(x, 0, "equipment"));
    let row = i32_of(field_of(x, 1, "row"));
    let column = i32_of(field_of(x, 2, "column"));
    match (equipment, row, column) {
        (Some(equipment), Some(row), Some(column)) => Some(
            EquipmentPlacementParam { equipment, row, column },
        ),
        _ => None,
    }
}

fn placements_of(v: Option<&JsonValue>) -> (r: Option<Vec<EquipmentPlacementParam>>)
    ensures
        r is None <==> read_placements(deref_opt(v)) is None,
        r matches Some(ps) ==> read_placements(deref_opt(v)) == Some(ps@),
{
    let items = match v {
        Some(JsonValue::Array(items)) => items,
        _ => return None,
    };
    assert(read_placements(deref_opt(v)) == read_placement_seq(items@));
    let mut out: Vec<EquipmentPlacementParam> = Vec::new();
    let mut i: usize = 0;
    while i < items.len()
        invariant
            i <= items@.len(),
            read_placements(deref_opt(v)) == read_placement_seq(items@),
            read_placement_seq(items@.take(i as int)) == Some(out@),
        decreases items.len() - i,
    {
        let p = placement_of(Some(&items[i]));
        proof {
            assert(items@.take(i + 1).drop_last() =~= items@.take(i as int));
            assert(items@.take(i + 1).last() == items@[i as int]);
        }
        match p {
            Some(p) => out.push(p),
            None => {
                proof {
                    assert(read_placement_seq(items@.take(i + 1)) is None);
                    lemma_placement_seq_prefix_fails(items@, i + 1);
                }
                return None;
            },
        }
        i += 1;
    }
    assert(items@.take(items@.len() as int) =~= items@);
    Some(out)
}

proof fn lemma_placement_seq_prefix_fails(items: Seq<JsonValue>, k: int)
    requires
        0 <= k <= items.len(),
        read_placement_seq(items.take(k)) is None,
    ensures
        read_placement_seq(items) is None,
    decreases items.len() - k,
{
    if k < items.len() {
        assert(items.take(k + 1).drop_last() =~= items.take(k));
        lemma_placement_seq_prefix_fails(items, k + 1);
    } else {
        assert(items.take(k) =~= items);
    }
}

fn names_variant_of(v: &JsonValue, name: &str) -> (r: bool)
    ensures
        r == names_variant(*v, name@),
{
    match v {
        JsonValue::String(s) => str_eq(s.as_str(), name),
        JsonValue::Object(entries) => {
            if entries.len() != 1 {
                return false;
            }
            let key_ok = str_eq(entries[0].0.as_str(), name);
            let null = match &entries[0].1 {
                JsonValue::Null => true,
                _ => false,
            };
            key_ok && null
        },
        _ => false,
    }
}

fn profile_of(v: Option<&JsonValue>) -> (r: Option<CaptureProfileParam>)
    ensures
        r == read_profile(deref_opt(v)),
{
    match v {
        Some(x) => {
            if names_variant_of(x, "inventory") {
                Some(CaptureProfileParam::Inventory)
            } else if names_variant_of(x, "combat") {
                Some(CaptureProfileParam::Combat)
            } else {
                None
            }
        },
        None => None,
    }
}

fn raw_capture_of(v: Option<&JsonValue>) -> (r: Option<Option<RawCaptureParam>>)
    ensures
        r == read_raw_capture(deref_opt(v)),
{
    match v {
        None => Some(None),
        Some(JsonValue::Null) => Some(None),
        Some(x) => {
            if names_variant_of(x, "enabled") {
                Some(Some(RawCaptureParam::Enabled))
            } else if names_variant_of(x, "disabled") {
                Some(Some(RawCaptureParam::Disabled))
            } else {
                None
            }
        },
    }
}

fn text_is(v: Option<&JsonValue>, t: &str) -> (r: bool)
    ensures
        r == (as_text(deref_opt(v)) == Some(t@)),
{
    match v {
        Some(JsonValue::String(s)) => str_eq(s.as_str(), t),
        _ => false,
    }
}

fn device_of(v: Option<&JsonValue>) -> (r: Option<CaptureDeviceParam>)
    ensures
        r is None <==> read_device(deref_opt(v)) is None,
        r matches Some(d) ==> read_device(deref_opt(v)) == Some(d@),
{
    match v {
        Some(JsonValue::Object(entries)) => {
            let mode = get_member(entries, "mode");
            if text_is(mode, "auto") {
                Some(CaptureDeviceParam::Auto)
            } else if text_is(mode, "name") {
                match string_of_value(get_member(entries, "name")) {
                    Some(name) => Some(CaptureDeviceParam::Name { name }),
                    None => None,
                }
            } else {
                None
            }
        },
        Some(JsonValue::Array(items)) => {
            if items.len() == 0 {
                None
            } else if text_is(Some(&items[0]), "auto") {
                Some(CaptureDeviceParam::Auto)
            } else if text_is(Some(&items[0]), "name") && items.len() == 2 {
                match string_of_value(Some(&items[1])) {
                    Some(name) => Some(CaptureDeviceParam::Name { name }),
                    None => None,
                }
            } else {
                None
            }
        },
        _ => None,
    }
}

fn hello_of(v: &JsonValue) -> (r: Option<HelloParams>)
    ensures
        r is None <==> read_hello(*v) is None,
        r matches Some(h) ==> read_hello(*v) == Some(h@),
{
    if !shaped(v, 4) {
        return None;
    }
    let client_name = string_of_value(field_of(v, 0, "client_name"));
    let client_version = string_of_value(field_of(v, 1, "client_version"));
    let protocol_min = u32_of(field_of(v, 2, "protocol_min"));
    let protocol_max = u32_of(field_of(v, 3, "protocol_max"));
    match (client_name, client_version, protocol_min, protocol_max) {
        (Some(client_name), Some(client_version), Some(protocol_min), Some(protocol_max)) => Some(
            HelloParams { client_name, client_version, protocol_min, protocol_max },
        ),
        _ => None,
    }
}

fn capture_start_of(v: &JsonValue) -> (r: Option<CaptureStartParams>)
    ensures
        r is None <==> read_capture_start(*v) is None,
        r matches Some(p) ==> read_capture_start(*v) == Some(p@),
{
    if !shaped(v, 5) {
        return None;
    }
    let profile = profile_of(field_of(v, 0, "profile"));
    let device = device_of(field_of(v, 1, "device"));
    let include_incoming = bool_of(field_of(v, 2, "include_incoming"));
    let server_damage_calibration = bool_of(field_of(v, 3, "server_damage_calibration"));
    let raw_capture = raw_capture_of(field_of(v, 4, "raw_capture"));
    match (profile, device, include_incoming, server_damage_calibration, raw_capture) {
        (
            Some(profile),
            Some(device),
            Some(include_incoming),
            Some(server_damage_calibration),
            Some(raw_capture),
        ) => Some(
            CaptureStartParams {
                profile,
                device,
                include_incoming,
                server_damage_calibration,
                raw_capture,
            },
        ),
        _ => None,
    }
}

fn battle_summary_of(v: &JsonValue) -> (r: Option<BattleSummaryParams>)
    ensures
        r == read_battle_summary(*v),
{
    if !shaped(v, 1) {
        return None;
    }
    match bool_of(field_of(v, 0, "subtract_time_stop")) {
        Some(subtract_time_stop) => Some(BattleSummaryParams { subtract_time_stop }),
        None => None,
    }
}

fn module_of(v: &JsonValue) -> (r: Option<(ItemUidParam, ItemUidParam, i32, i32)>)
    ensures
        r == read_module(*v),
{
    if !shaped(v, 4) {
        return None;
    }
    let c = uid_of(field_of(v, 0, "character"));
    let e = uid_of(field_of(v, 1, "equipment"));
    let row = i32_of(field_of(v, 2, "row"));
    let column = i32_of(field_of(v, 3, "column"));
    match (c, e, row, column) {
        (Some(c), Some(e), Some(row), Some(column)) => Some((c, e, row, column)),
        _ => None,
    }
}

fn character_equipment_of(v: &JsonValue) -> (r: Option<(ItemUidParam, ItemUidParam)>)
    ensures
        r == read_character_equipment(*v),
{
    if !shaped(v, 2) {
        return None;
    }
    let c = uid_of(field_of(v, 0, "character"));
    let e = uid_of(field_of(v, 1, "equipment"));
    match (c, e) {
        (Some(c), Some(e)) => Some((c, e)),
        _ => None,
    }
}

fn character_of(v: &JsonValue) -> (r: Option<ItemUidParam>)
    ensures
        r == read_character(*v),
{
    if !shaped(v, 1) {
        return None;
    }
    uid_of(field_of(v, 0, "character"))
}

fn one_key_of(v: &JsonValue) -> (r: Option<(ItemUidParam, Vec<EquipmentPlacementParam>, ItemUidParam)>)
    ensures
        r is None <==> read_one_key(*v) is None,
        r matches Some(t) ==> read_one_key(*v) == Some((t.0, t.1@, t.2)),
{
    if !shaped(v, 3) {
        return None;
    }
    let c = uid_of(field_of(v, 0, "character"));
    let ps = placements_of(field_of(v, 1, "placements"));
    let core = uid_of(field_of(v, 2, "core"));
    match (c, ps, core) {
        (Some(c), Some(ps), Some(core)) => Some((c, ps, core)),
        _ => None,
    }
}

fn flag_of(v: &JsonValue, flag: &str) -> (r: Option<(ItemUidParam, bool)>)
    ensures
        r == read_flag(*v, flag@),
{
    if !shaped(v, 2) {
        return None;
    }
    let e = uid_of(field_of(v, 0, "equipment"));
    let b = bool_of(field_of(v, 1, flag));
    match (e, b) {
        (Some(e), Some(b)) => Some((e, b)),
        _ => None,
    }
}

// ---------------------------------------------------------------------------
// Validation
// ---------------------------------------------------------------------------

fn invalid(detail: &str) -> (e: RpcError)
    ensures
        is_invalid_params(e, detail@),
{
    RpcError::invalid_params(owned(detail))
}

fn params_error(method: &str) -> (e: RpcError)
    ensures
        is_invalid_params(e, params_detail(method@)),
{
    let mut detail = owned(method);
    push_str(&mut detail, " parameters are invalid");
    RpcError::invalid_params(detail)
}

/// Slot and serial of `uid` must be nonzero and not `u32::MAX`.
pub fn validate_uid(uid: ItemUidParam, field: &str) -> (r: Result<(), RpcError>)
    ensures
        r is Ok <==> uid_ok(uid),
        r matches Err(e) ==> is_invalid_params(e, uid_detail(field@)),
{
    if uid.slot == 0 || uid.serial == 0 || uid.slot == u32::MAX || uid.serial == u32::MAX {
        let mut detail = owned(field);
        push_str(&mut detail, " slot and serial must be nonzero and must not be 4294967295");
        Err(RpcError::invalid_params(detail))
    } else {
        Ok(())
    }
}

/// Row and column must both lie in `1..=5`.
pub fn validate_grid_position(row: i32, column: i32) -> (r: Result<(), RpcError>)
    ensures
        r is Ok <==> grid_ok(row, column),
        r matches Err(e) ==> is_invalid_params(e, grid_detail()),
{
    if 1 <= row && row <= 5 && 1 <= column && column <= 5 {
        Ok(())
    } else {
        Err(invalid("row and column must both be in the range 1..5"))
    }
}

/// Parameters of a method that takes none must be absent (null) or an object.
pub fn validate_empty_params(params: &JsonValue) -> (r: Result<(), RpcError>)
    ensures
        r is Ok <==> empty_params_ok(*params),
        r matches Err(e) ==> is_invalid_params(e, empty_params_detail()),
{
    match params {
        JsonValue::Null => Ok(()),
        JsonValue::Object(_) => Ok(()),
        _ => Err(invalid("params must be an object when provided")),
    }
}

fn validate_placements(ps: &Vec<EquipmentPlacementParam>) -> (r: Result<(), RpcError>)
    ensures
        r is Ok <==> first_placement_error(ps@) is None,
        r matches Err(e) ==> is_invalid_params(e, first_placement_error(ps@)->0),
{
    let mut i: usize = 0;
    assert(ps@.skip(0) =~= ps@);
    while i < ps.len()
        invariant
            i <= ps@.len(),
            first_placement_error(ps@) == first_placement_error(ps@.skip(i as int)),
        decreases ps.len() - i,
    {
        let p = ps[i];
        assert(ps@.skip(i as int)[0] == p);
        assert(ps@.skip(i as int).drop_first() =~= ps@.skip(i + 1));
        match validate_uid(p.equipment, "placement equipment") {
            Err(e) => return Err(e),
            Ok(()) => {},
        }
        match validate_grid_position(p.row, p.column) {
            Err(e) => return Err(e),
            Ok(()) => {},
        }
        i += 1;
    }
    assert(ps@.skip(i as int) =~= Seq::<EquipmentPlacementParam>::empty());
    Ok(())
}

/// The typed request for `method` with `params`, after the parameters are
/// read and validated; a method the protocol does not know gives `Unknown`.
pub fn parse_request(method: &str, params: JsonValue) -> (r: Result<Request, RpcError>)
    ensures
        match (spec_parse_request(method@, params), r) {
            (Ok(view), Ok(request)) => request@ == view,
            (Err(detail), Err(e)) => is_invalid_params(e, detail),
            _ => false,
        },
{
    if str_eq(method, "core.hello") {
        let h = match hello_of(&params) {
            Some(h) => h,
            None => return Err(invalid("core.hello requires all handshake fields")),
        };
        if h.client_name.as_str().is_empty() || h.client_version.as_str().is_empty() {
            return Err(invalid("client_name and client_version must not be empty"));
        }
        if h.protocol_min > h.protocol_max {
            return Err(invalid("protocol_min must not exceed protocol_max"));
        }
        Ok(Request::Hello(h))
    } else if str_eq(method, "core.status") {
        validate_empty_params(&params)?;
        Ok(Request::Status)
    } else if str_eq(method, "core.shutdown") {
        validate_empty_params(&params)?;
        Ok(Request::Shutdown)
    } else if str_eq(method, "capture.detect") {
        validate_empty_params(&params)?;
        Ok(Request::CaptureDetect)
    } else if str_eq(method, "capture.start") {
        let p = match capture_start_of(&params) {
            Some(p) => p,
            None => return Err(invalid("capture.start parameters are invalid")),
        };
        let blank = match &p.device {
            CaptureDeviceParam::Name { name } => str_is_blank(name.as_str()),
            CaptureDeviceParam::Auto => false,
        };
        if blank {
            return Err(invalid("device name must not be empty"));
        }
        Ok(Request::CaptureStart(p))
    } else if str_eq(method, "capture.stop") {
        validate_empty_params(&params)?;
        Ok(Request::CaptureStop)
    } else if str_eq(method, "inventory.get_latest") {
        validate_empty_params(&params)?;
        Ok(Request::InventoryGetLatest)
    } else if str_eq(method, "equipment.equip_module") {
        let (c, e, row, column) = match module_of(&params) {
            Some(t) => t,
            None => return Err(params_error(method)),
        };
        validate_uid(c, "character")?;
        validate_uid(e, "equipment")?;
        validate_grid_position(row, column)?;
        Ok(
            Request::Equipment(
                EquipmentOperationParam::EquipModule { character: c, equipment: e, row, column },
            ),
        )
    } else if str_eq(method, "equipment.equip_core") {
        let (c, e) = match character_equipment_of(&params) {
            Some(t) => t,
            None => return Err(params_error(method)),
        };
        validate_uid(c, "character")?;
        validate_uid(e, "equipment")?;
        Ok(Request::Equipment(EquipmentOperationParam::EquipCore { character: c, equipment: e }))
    } else if str_eq(method, "equipment.unequip_module") {
        let (c, e) = match character_equipment_of(&params) {
            Some(t) => t,
            None => return Err(params_error(method)),
        };
        validate_uid(c, "character")?;
        validate_uid(e, "equipment")?;
        Ok(
            Request::Equipment(
                EquipmentOperationParam::UnequipModule { character: c, equipment: e },
            ),
        )
    } else if str_eq(method, "equipment.unequip_core") {
        let (c, e) = match character_equipment_of(&params) {
            Some(t) => t,
            None => return Err(params_error(method)),
        };
        validate_uid(c, "character")?;
        validate_uid(e, "equipment")?;
        Ok(Request::Equipment(EquipmentOperationParam::UnequipCore { character: c, equipment: e }))
    } else if str_eq(method, "equipment.unequip_all") {
        let c = match character_of(&params) {
            Some(c) => c,
            None => return Err(params_error(method)),
        };
        validate_uid(c, "character")?;
        Ok(Request::Equipment(EquipmentOperationParam::UnequipAll { character: c }))
    } else if str_eq(method, "equipment.equip_one_key") {
        let (c, placements, core) = match one_key_of(&params) {
            Some(t) => t,
            None => return Err(params_error(method)),
        };
        validate_uid(c, "character")?;
        validate_uid(core, "core")?;
        if placements.len() == 0 || placements.len() > 64 {
            return Err(invalid("placements must contain between 1 and 64 entries"));
        }
        validate_placements(&placements)?;
        Ok(
            Request::Equipment(
                EquipmentOperationParam::EquipOneKey { character: c, placements, core },
            ),
        )
    } else if str_eq(method, "equipment.move_module_to_character") {
        let (c, e, row, column) = match module_of(&params) {
            Some(t) => t,
            None => return Err(params_error(method)),
        };
        validate_uid(c, "character")?;
        validate_uid(e, "equipment")?;
        validate_grid_position(row, column)?;
        Ok(
            Request::Equipment(
                EquipmentOperationParam::MoveModuleToCharacter {
                    character: c,
                    equipment: e,
                    row,
                    column,
                },
            ),
        )
    } else if str_eq(method, "equipment.move_core_to_character") {
        let (c, e) = match character_equipment_of(&params) {
            Some(t) => t,
            None => return Err(params_error(method)),
        };
        validate_uid(c, "character")?;
        validate_uid(e, "equipment")?;
        Ok(
            Request::Equipment(
                EquipmentOperationParam::MoveCoreToCharacter { character: c, equipment: e },
            ),
        )
    } else if str_eq(method, "equipment.set_item_discarded") {
        let (e, discarded) = match flag_of(&params, "discarded") {
            Some(t) => t,
            None => return Err(params_error(method)),
        };
        validate_uid(e, "equipment")?;
        Ok(
            Request::Equipment(
                EquipmentOperationParam::SetItemDiscarded { equipment: e, discarded },
            ),
        )
    } else if str_eq(method, "equipment.set_item_locked") {
        let (e, locked) = match flag_of(&params, "locked") {
            Some(t) => t,
            None => return Err(params_error(method)),
        };
        validate_uid(e, "equipment")?;
        Ok(Request::Equipment(EquipmentOperationParam::SetItemLocked { equipment: e, locked }))
    } else if str_eq(method, "battle.get_summary") {
        match battle_summary_of(&params) {
            Some(p) => Ok(Request::BattleGetSummary(p)),
            None => Err(invalid("battle.get_summary requires subtract_time_stop")),
        }
    } else if str_eq(method, "battle.reset") {
        validate_empty_params(&params)?;
        Ok(Request::BattleReset)
    } else {
        Ok(Request::Unknown)
    }
}

} // verus!
