use nte_dps_core::api::jsonrpc::{
    failure, failure_without_id, parse_document, parse_line, RpcError, INVALID_PARAMS, INVALID_REQUEST,
    PARSE_ERROR,
};
use nte_dps_core::api::request::{
    parse_request, validate_empty_params, validate_grid_position, validate_uid,
    CaptureDeviceParam, CaptureProfileParam, EquipmentOperationParam, ItemUidParam,
    RawCaptureParam, Request,
};
use nte_dps_core::api::response::StatusResult;
use nte_dps_core::json::{JsonNumber, JsonValue};

fn to_json(value: serde_json::Value) -> JsonValue {
    match value {
        serde_json::Value::Null => JsonValue::Null,
        serde_json::Value::Bool(b) => JsonValue::Bool(b),
        serde_json::Value::Number(n) => JsonValue::Number(if let Some(u) = n.as_u64() {
            JsonNumber::PosInt(u)
        } else if let Some(i) = n.as_i64() {
            JsonNumber::NegInt(i)
        } else {
            JsonNumber::Float
        }),
        serde_json::Value::String(s) => JsonValue::String(s),
        serde_json::Value::Array(items) => {
            JsonValue::Array(items.into_iter().map(to_json).collect())
        }
        serde_json::Value::Object(map) => JsonValue::Object(
            map.into_iter()
                .map(|(key, value)| (key, to_json(value)))
                .collect(),
        ),
    }
}

fn json(text: &str) -> JsonValue {
    to_json(serde_json::from_str(text).expect("fixture should be JSON"))
}

#[test]
fn rejects_batch_and_invalid_ids() {
    assert_eq!(parse_line("[]").unwrap_err().error.code, INVALID_REQUEST);
    assert_eq!(
        parse_line(r#"{"jsonrpc":"2.0","id":true,"method":"core.status"}"#)
            .unwrap_err()
            .error
            .code,
        INVALID_REQUEST
    );
}

#[test]
fn preserves_string_and_numeric_ids() {
    let string =
        parse_line(r#"{"jsonrpc":"2.0","id":"request-1","method":"core.status"}"#).unwrap();
    let numeric = parse_line(r#"{"jsonrpc":"2.0","id":7,"method":"core.status"}"#).unwrap();
    assert_eq!(string.id, JsonValue::String("request-1".to_owned()));
    assert_eq!(numeric.id, JsonValue::Number(JsonNumber::PosInt(7)));
}

#[test]
fn invalid_params_preserve_a_valid_request_id() {
    let error = parse_line(
        r#"{"jsonrpc":"2.0","id":"bad-params","method":"core.status","params":[]}"#,
    )
    .unwrap_err();
    assert_eq!(error.id, JsonValue::String("bad-params".to_owned()));
    assert_eq!(error.error.code, INVALID_PARAMS);
}

#[test]
fn envelope_errors_answer_with_a_null_id() {
    let not_json = parse_line("{").unwrap_err();
    assert_eq!(not_json.error.code, PARSE_ERROR);
    assert_eq!(not_json.id, JsonValue::Null);
    let old_version = parse_line(r#"{"jsonrpc":"1.0","id":1,"method":"core.status"}"#)
        .unwrap_err();
    assert_eq!(old_version.error.code, INVALID_REQUEST);
    assert_eq!(old_version.id, JsonValue::Null);
    let no_id = parse_line(r#"{"jsonrpc":"2.0","method":"core.status"}"#).unwrap_err();
    assert_eq!(no_id.error.code, INVALID_REQUEST);
    let float_id =
        parse_line(r#"{"jsonrpc":"2.0","id":1.5,"method":"core.status"}"#).unwrap_err();
    assert_eq!(float_id.error.code, INVALID_REQUEST);
    let no_method = parse_line(r#"{"jsonrpc":"2.0","id":1,"method":3}"#).unwrap_err();
    assert_eq!(no_method.error.code, INVALID_REQUEST);
    let null_id = parse_line(r#"{"jsonrpc":"2.0","id":null,"method":"what"}"#).unwrap();
    assert_eq!(null_id.id, JsonValue::Null);
    assert!(matches!(null_id.request, Request::Unknown));
    let negative = parse_line(r#"{"jsonrpc":"2.0","id":-4,"method":"battle.reset"}"#)
        .unwrap();
    assert_eq!(negative.id, JsonValue::Number(JsonNumber::NegInt(-4)));
    assert!(matches!(negative.request, Request::BattleReset));
}

#[test]
fn failure_replies_carry_code_message_and_data() {
    let reply = failure(
        JsonValue::String("x".to_owned()),
        RpcError::invalid_params("bad".to_owned()),
    );
    assert_eq!(
        canonical(reply),
        canonical(json(
            r#"{"jsonrpc":"2.0","id":"x","error":{"code":-32602,"message":"Invalid params","data":{"domain_code":"INVALID_PARAMS","detail":"bad"}}}"#
        ))
    );
    let plain = failure_without_id(RpcError::internal());
    assert_eq!(
        canonical(plain),
        canonical(json(
            r#"{"jsonrpc":"2.0","id":null,"error":{"code":-32603,"message":"Internal error"}}"#
        ))
    );
    assert_eq!(RpcError::parse_error().message, "Parse error");
    assert_eq!(RpcError::method_not_found().code, -32601);
    let domain = RpcError::domain("NOT_READY", "later".to_owned());
    assert_eq!(domain.code, -32000);
    assert_eq!(domain.data.unwrap().domain_code, "NOT_READY");
}

fn canonical(value: JsonValue) -> JsonValue {
    match value {
        JsonValue::Array(items) => JsonValue::Array(items.into_iter().map(canonical).collect()),
        JsonValue::Object(entries) => {
            let mut entries: Vec<(String, JsonValue)> = entries
                .into_iter()
                .map(|(key, value)| (key, canonical(value)))
                .collect();
            entries.sort_by(|left, right| left.0.cmp(&right.0));
            JsonValue::Object(entries)
        }
        other => other,
    }
}

#[test]
fn validates_hello_protocol_range() {
    let error = parse_request(
        "core.hello",
        json(r#"{"client_name":"client","client_version":"1","protocol_min":2,"protocol_max":1}"#),
    )
    .unwrap_err();
    assert_eq!(error.data.unwrap().domain_code, "INVALID_PARAMS");
}

#[test]
fn no_param_methods_reject_arrays() {
    assert!(parse_request("core.status", json("[]")).is_err());
}

#[test]
fn capture_start_accepts_explicitly_disabled_raw_capture() {
    let request = parse_request(
        "capture.start",
        json(
            r#"{"profile":"inventory","device":{"mode":"auto"},"include_incoming":true,"server_damage_calibration":true,"raw_capture":"disabled"}"#,
        ),
    )
    .unwrap();
    let Request::CaptureStart(params) = request else {
        panic!("capture.start must produce typed parameters");
    };
    assert_eq!(params.profile, CaptureProfileParam::Inventory);
    assert_eq!(params.device, CaptureDeviceParam::Auto);
    assert_eq!(params.raw_capture, Some(RawCaptureParam::Disabled));
}

#[test]
fn capture_start_rejects_unknown_profiles_and_blank_manual_devices() {
    let base = json(
        r#"{"profile":"other","device":{"mode":"auto"},"include_incoming":true,"server_damage_calibration":true}"#,
    );
    assert!(parse_request("capture.start", base).is_err());
    assert!(parse_request(
        "capture.start",
        json(
            r#"{"profile":"combat","device":{"mode":"name","name":""},"include_incoming":false,"server_damage_calibration":false}"#
        )
    )
    .is_err());
}

#[test]
fn battle_summary_requires_a_boolean_time_stop_mode() {
    let request =
        parse_request("battle.get_summary", json(r#"{"subtract_time_stop":true}"#)).unwrap();
    let Request::BattleGetSummary(params) = request else {
        panic!("battle.get_summary must produce typed parameters");
    };
    assert!(params.subtract_time_stop);
    assert!(parse_request("battle.get_summary", json("{}")).is_err());
    assert!(parse_request("battle.get_summary", json(r#"{"subtract_time_stop":"yes"}"#)).is_err());
}

#[test]
fn equipment_methods_validate_uids_positions_and_boolean_state() {
    let request = parse_request(
        "equipment.move_module_to_character",
        json(
            r#"{"character":{"slot":1,"serial":2},"equipment":{"slot":3,"serial":4},"row":2,"column":5}"#,
        ),
    )
    .unwrap();
    assert!(matches!(
        request,
        Request::Equipment(EquipmentOperationParam::MoveModuleToCharacter {
            row: 2,
            column: 5,
            ..
        })
    ));
    assert!(parse_request(
        "equipment.equip_module",
        json(
            r#"{"character":{"slot":0,"serial":0},"equipment":{"slot":3,"serial":4},"row":1,"column":1}"#
        )
    )
    .is_err());
    assert!(validate_uid(ItemUidParam { slot: 0, serial: 1 }, "equipment").is_err());
    assert!(validate_uid(ItemUidParam { slot: 1, serial: 0 }, "equipment").is_err());
    assert!(validate_uid(
        ItemUidParam {
            slot: u32::MAX,
            serial: 1,
        },
        "equipment"
    )
    .is_err());
    assert!(validate_uid(
        ItemUidParam {
            slot: 1,
            serial: u32::MAX,
        },
        "equipment"
    )
    .is_err());
    assert!(validate_uid(ItemUidParam { slot: 1, serial: 2 }, "equipment").is_ok());
    assert!(parse_request(
        "equipment.move_module_to_character",
        json(
            r#"{"character":{"slot":1,"serial":2},"equipment":{"slot":3,"serial":4},"row":0,"column":6}"#
        )
    )
    .is_err());
    assert!(parse_request(
        "equipment.set_item_locked",
        json(r#"{"equipment":{"slot":3,"serial":4},"locked":1}"#)
    )
    .is_err());
}

#[test]
fn one_key_equipment_requires_a_bounded_nonempty_plan() {
    let base = json(
        r#"{"character":{"slot":1,"serial":2},"placements":[{"equipment":{"slot":3,"serial":4},"row":1,"column":2}],"core":{"slot":5,"serial":6}}"#,
    );
    assert!(parse_request("equipment.equip_one_key", base).is_ok());
    assert!(parse_request(
        "equipment.equip_one_key",
        json(r#"{"character":{"slot":1,"serial":2},"placements":[],"core":{"slot":5,"serial":6}}"#)
    )
    .is_err());
}

#[test]
fn struct_parameters_may_come_as_arrays_in_field_order() {
    let request = parse_request("core.hello", json(r#"["client","1",1,2]"#)).unwrap();
    let Request::Hello(hello) = request else {
        panic!("core.hello must produce typed parameters");
    };
    assert_eq!(hello.client_name, "client");
    assert_eq!(hello.protocol_max, 2);
    assert!(parse_request("core.hello", json(r#"["client","1",1]"#)).is_err());
    let device = parse_request(
        "capture.start",
        json(r#"{"profile":{"combat":null},"device":["name","eth0"],"include_incoming":false,"server_damage_calibration":false,"raw_capture":null}"#),
    )
    .unwrap();
    let Request::CaptureStart(params) = device else {
        panic!("capture.start must produce typed parameters");
    };
    assert_eq!(params.profile, CaptureProfileParam::Combat);
    assert_eq!(
        params.device,
        CaptureDeviceParam::Name {
            name: "eth0".to_owned()
        }
    );
    assert_eq!(params.raw_capture, None);
}

#[test]
fn parameter_error_details_name_the_failing_check() {
    let detail = |method: &str, params: &str| {
        parse_request(method, json(params))
            .unwrap_err()
            .data
            .unwrap()
            .detail
    };
    assert_eq!(
        detail("equipment.unequip_all", "{}"),
        "equipment.unequip_all parameters are invalid"
    );
    assert_eq!(
        detail("equipment.unequip_all", r#"{"character":{"slot":0,"serial":1}}"#),
        "character slot and serial must be nonzero and must not be 4294967295"
    );
    assert_eq!(
        detail(
            "equipment.equip_one_key",
            r#"{"character":{"slot":1,"serial":2},"placements":[{"equipment":{"slot":3,"serial":4},"row":9,"column":2}],"core":{"slot":5,"serial":6}}"#
        ),
        "row and column must both be in the range 1..5"
    );
    assert_eq!(
        detail("core.hello", r#"{"client_name":"","client_version":"1","protocol_min":1,"protocol_max":1}"#),
        "client_name and client_version must not be empty"
    );
    assert_eq!(detail("capture.stop", "3"), "params must be an object when provided");
    assert!(matches!(parse_request("no.such.method", json("[]")), Ok(Request::Unknown)));
    assert!(validate_grid_position(5, 1).is_ok());
    assert!(validate_grid_position(0, 1).is_err());
    assert!(validate_empty_params(&JsonValue::Null).is_ok());
    assert!(validate_empty_params(&JsonValue::Bool(true)).is_err());
}

#[test]
fn status_reports_core_state_from_capture() {
    let running = StatusResult::new(true, true, Some("combat"), Some(3), false, None);
    assert_eq!(running.core_state, "capturing");
    let idle = StatusResult::new(false, false, None, None, true, Some("raw.json".to_owned()));
    assert_eq!(idle.core_state, "idle");
    assert_eq!(idle.raw_capture_path.as_deref(), Some("raw.json"));
}

#[test]
fn parsed_documents_are_validated_like_lines() {
    let missing = parse_document(None).unwrap_err();
    assert_eq!(missing.error.code, PARSE_ERROR);
    assert_eq!(missing.id, JsonValue::Null);
    let built = JsonValue::Object(vec![
        ("jsonrpc".to_owned(), JsonValue::String("2.0".to_owned())),
        ("id".to_owned(), JsonValue::Number(JsonNumber::PosInt(9))),
        ("method".to_owned(), JsonValue::String("battle.reset".to_owned())),
    ]);
    let accepted = parse_document(Some(built)).unwrap();
    assert_eq!(accepted.id, JsonValue::Number(JsonNumber::PosInt(9)));
    assert!(matches!(accepted.request, Request::BattleReset));
    let batch = parse_document(Some(JsonValue::Array(Vec::new()))).unwrap_err();
    assert_eq!(batch.error.code, INVALID_REQUEST);
}
