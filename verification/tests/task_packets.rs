use task_packet_protocol::api::{api_failure, check_adapter_manifest, ApiFailure, TaskPacketAdapterManifest};
use task_packet_protocol::json::{JsonNumber, JsonValue};
use task_packet_protocol::mcp::{compile_request_payload, plan_result_submission};
use task_packet_protocol::protocol::{canonical_json, document_sha256, ProtocolError};
use task_packet_protocol::schema::{build_validators, ProtocolValidators, SchemaSources};
use task_packet_protocol::task_packet::{
    check_result_inserted, prepare_task_packet, require_found, required_string, stored_payload,
    validate_result_envelope, validate_schema_version, validate_task_packet, CreateTaskPacket,
    CreateTaskPacketResult, TaskPacket, TaskPacketError,
};
use task_packet_protocol::text::to_json_string;

fn num(n: u64) -> JsonValue {
    JsonValue::Number(JsonNumber::PosInt(n))
}

fn text(s: &str) -> JsonValue {
    JsonValue::String(s.to_string())
}

fn obj(entries: Vec<(&str, JsonValue)>) -> JsonValue {
    JsonValue::Object(entries.into_iter().map(|(k, v)| (k.to_string(), v)).collect())
}

fn clean() -> Result<ProtocolValidators, String> {
    let object = r#"{"type": "object"}"#.to_string();
    let built = build_validators(SchemaSources {
        adapter_manifest: r#"{
          "type": "object",
          "required": ["adapter_id", "version"],
          "properties": {"version": {"type": "string", "minLength": 1}}
        }"#.to_string(),
        context_slice: object.clone(),
        execution_provenance: object.clone(),
        integration_ledger: object.clone(),
        result_envelope: r#"{"type": "object", "properties": {"provenance": {"$ref": "execution-provenance.schema.json"}}}"#.to_string(),
        task_packet: r#"{
          "type": "object",
          "properties": {
            "schema_version": {"type": "integer"},
            "scope": {"type": "object", "properties": {"write": {"type": "array", "items": {"type": "string"}}}},
            "context": {"$ref": "context-slice.schema.json"}
          }
        }"#.to_string(),
    });
    assert!(built.is_ok(), "schemas did not compile: {:?}", built.as_ref().err());
    built
}

fn manifest_document(version: &str) -> JsonValue {
    obj(vec![
        ("schema_version", num(1)),
        ("adapter_id", text("vibe-kanban")),
        ("version", text(version)),
    ])
}

fn task_packet_with_version(version: JsonValue) -> JsonValue {
    obj(vec![
        ("schema_version", version),
        ("packet_id", text("weather-042-client")),
        ("task_id", text("weather-042-client")),
        ("title", text("Weather client")),
        ("objective", text("Add a client for the weather service")),
        ("scope", obj(vec![("write", JsonValue::Array(vec![text("application")]))])),
    ])
}

fn task_packet() -> JsonValue {
    task_packet_with_version(num(1))
}

fn result_envelope(packet_id: &str, task_id: &str, status: &str) -> JsonValue {
    obj(vec![
        ("schema_version", num(1)),
        ("packet_id", text(packet_id)),
        ("task_id", text(task_id)),
        ("status", text(status)),
    ])
}

fn stored_packet() -> TaskPacket {
    TaskPacket {
        id: 7,
        packet_id: "weather-042-client".to_string(),
        task_id: "weather-042-client".to_string(),
        issue_id: None,
        workspace_id: None,
        execution_process_id: None,
        schema_version: 1,
        payload_sha256: String::new(),
        packet: task_packet(),
        created_at: 0,
        updated_at: 0,
    }
}

fn invalid_message(e: TaskPacketError) -> String {
    match e {
        TaskPacketError::InvalidDocument(m) => m,
        other => panic!("unexpected {:?}", other),
    }
}

#[test]
fn accepts_protocol_v1_task_packet_shape() {
    let result = validate_task_packet(&task_packet(), &clean()).unwrap();
    assert_eq!(
        result,
        (1, "weather-042-client".to_string(), "weather-042-client".to_string())
    );
}

#[test]
fn rejects_unknown_protocol_version() {
    let packet = task_packet_with_version(num(2));
    assert!(validate_task_packet(&packet, &clean()).is_err());
}

#[test]
fn rejects_result_with_unknown_version() {
    let result = obj(vec![
        ("schema_version", num(2)),
        ("packet_id", text("p")),
        ("task_id", text("t")),
        ("status", text("complete")),
    ]);
    let e = validate_result_envelope(&result, &clean(), "p", "t").unwrap_err();
    assert_eq!(invalid_message(e), "unsupported schema_version 2; supported version is 1");
}

#[test]
fn rejects_result_for_another_packet() {
    let result = result_envelope("other-packet", "weather-042-client", "complete");
    assert!(validate_result_envelope(&result, &clean(), "weather-042-client", "weather-042-client").is_err());
}

#[test]
fn version_errors_say_what_is_wrong() {
    let e = validate_task_packet(&task_packet_with_version(num(2)), &clean()).unwrap_err();
    assert_eq!(invalid_message(e), "unsupported schema_version 2; supported version is 1");
    let e = validate_schema_version(&task_packet_with_version(JsonValue::Number(JsonNumber::NegInt(-5)))).unwrap_err();
    assert_eq!(invalid_message(e), "unsupported schema_version -5; supported version is 1");
    let e = validate_schema_version(&task_packet_with_version(text("1"))).unwrap_err();
    assert_eq!(invalid_message(e), "'schema_version' must be an integer");
    let e = validate_schema_version(&task_packet_with_version(JsonValue::Number(JsonNumber::Float("1.0".to_string())))).unwrap_err();
    assert_eq!(invalid_message(e), "'schema_version' must be an integer");
    assert_eq!(validate_schema_version(&task_packet()).unwrap(), 1);
}

#[test]
fn required_strings_must_not_be_blank() {
    let doc = obj(vec![("a", text("  \t\n")), ("b", text("\u{3000}\u{a0}")), ("c", num(3)), ("d", text(" x "))]);
    assert_eq!(invalid_message(required_string(&doc, "a").unwrap_err()), "'a' must be a non-empty string");
    assert_eq!(invalid_message(required_string(&doc, "b").unwrap_err()), "'b' must be a non-empty string");
    assert_eq!(invalid_message(required_string(&doc, "c").unwrap_err()), "'c' must be a non-empty string");
    assert_eq!(invalid_message(required_string(&doc, "zz").unwrap_err()), "'zz' must be a non-empty string");
    assert_eq!(required_string(&doc, "d").unwrap(), " x ");
}

#[test]
fn task_packet_checks_come_in_order() {
    let doc = obj(vec![("schema_version", num(1)), ("packet_id", text("p")), ("task_id", text("t")), ("title", text("T"))]);
    let e = validate_task_packet(&doc, &clean()).unwrap_err();
    assert_eq!(invalid_message(e), "'objective' must be a non-empty string");
    let doc = obj(vec![("schema_version", text("one")), ("packet_id", text("p"))]);
    match validate_task_packet(&doc, &clean()).unwrap_err() {
        TaskPacketError::Protocol(p) => {
            assert!(p.message().starts_with("Invalid task packet: /schema_version: "), "{}", p.message())
        }
        other => panic!("unexpected {:?}", other),
    }
}

#[test]
fn result_envelope_checks() {
    let ok = validate_result_envelope(&result_envelope("p", "t", "blocked"), &clean(), "p", "t").unwrap();
    assert_eq!(ok, (1, "blocked".to_string()));
    let e = validate_result_envelope(&result_envelope("p", "x", "complete"), &clean(), "p", "t").unwrap_err();
    assert_eq!(invalid_message(e), "result task_id 'x' does not match 't'");
    let e = validate_result_envelope(&result_envelope("q", "t", "complete"), &clean(), "p", "t").unwrap_err();
    assert_eq!(invalid_message(e), "result packet_id 'q' does not match 'p'");
    let e = validate_result_envelope(&result_envelope("p", "t", "pending"), &clean(), "p", "t").unwrap_err();
    assert_eq!(invalid_message(e), "unsupported result status 'pending'");
}

#[test]
fn preparing_a_packet_checks_duplicates_and_digests() {
    let request = CreateTaskPacket { issue_id: Some(1), workspace_id: None, execution_process_id: None, packet: task_packet() };
    match prepare_task_packet(&request, &clean(), true).unwrap_err() {
        TaskPacketError::DuplicatePacketId(id) => assert_eq!(id, "weather-042-client"),
        other => panic!("unexpected {:?}", other),
    }
    let prepared = prepare_task_packet(&request, &clean(), false).unwrap();
    assert_eq!(prepared.packet_id, "weather-042-client");
    assert_eq!(prepared.stored.payload, to_json_string(&task_packet()).unwrap());
    assert_eq!(prepared.stored.payload_sha256, document_sha256(&task_packet()).unwrap());
    assert_ne!(prepared.stored.payload, canonical_json(&task_packet()).unwrap());
}

#[test]
fn preparing_a_result_checks_it_against_the_packet() {
    let packet = stored_packet();
    let good = CreateTaskPacketResult { execution_process_id: None, workspace_id: None, result: result_envelope("weather-042-client", "weather-042-client", "failed") };
    let prepared = packet.prepare_result(&good, &clean()).unwrap();
    assert_eq!(prepared.status, "failed");
    assert_eq!(prepared.schema_version, 1);
    let payload = stored_payload(&good.result).unwrap();
    assert_eq!(prepared.stored.payload, payload.payload);
    let bad = CreateTaskPacketResult { execution_process_id: None, workspace_id: None, result: result_envelope("other-packet", "weather-042-client", "failed") };
    assert!(packet.prepare_result(&bad, &clean()).is_err());
}

#[test]
fn write_outcomes() {
    assert!(check_result_inserted(1).is_ok());
    assert_eq!(invalid_message(check_result_inserted(0).unwrap_err()), "a result has already been submitted for this packet run");
    assert_eq!(require_found(Some(3)).unwrap(), 3);
    assert!(matches!(require_found::<u8>(None), Err(TaskPacketError::NotFound)));
}

#[test]
fn task_packet_error_messages() {
    assert_eq!(TaskPacketError::NotFound.message(), "Task packet not found");
    assert_eq!(TaskPacketError::DuplicatePacketId("p".to_string()).message(), "A task packet with packet_id 'p' already exists");
    assert_eq!(TaskPacketError::InvalidDocument("x".to_string()).message(), "Invalid Task Packet Protocol document: x");
    assert_eq!(TaskPacketError::Database("db down".to_string()).message(), "db down");
    assert_eq!(TaskPacketError::Protocol(ProtocolError::Schema("s".to_string())).message(), "Protocol schema setup failed: s");
}

#[test]
fn api_failures() {
    assert!(matches!(api_failure(&TaskPacketError::DuplicatePacketId("p".to_string())), ApiFailure::Conflict(m) if m == "Task packet 'p' already exists"));
    assert!(matches!(api_failure(&TaskPacketError::NotFound), ApiFailure::BadRequest(m) if m == "Task packet not found"));
    assert!(matches!(api_failure(&TaskPacketError::Database("d".to_string())), ApiFailure::Database(m) if m == "d"));
    assert!(matches!(api_failure(&TaskPacketError::Serde("s".to_string())), ApiFailure::BadRequest(m) if m == "s"));
    assert!(matches!(api_failure(&TaskPacketError::InvalidDocument("i".to_string())), ApiFailure::BadRequest(m) if m == "i"));
    assert!(matches!(api_failure(&TaskPacketError::Protocol(ProtocolError::Serialization("x".to_string()))), ApiFailure::BadRequest(m) if m == "Canonical JSON serialization failed: x"));
}

#[test]
fn adapter_manifest_of_the_server() {
    let m = TaskPacketAdapterManifest::vibe_kanban("0.1.2");
    assert_eq!(m.schema_version, 1);
    assert_eq!(m.adapter_id, "vibe-kanban");
    assert_eq!(m.adapter_kind, "orchestrator");
    assert_eq!(m.display_name, "Vibe Kanban");
    assert_eq!(m.version, "0.1.2");
    assert_eq!(m.protocol_versions, vec![1]);
    assert_eq!(m.capabilities, vec!["persist_task_packets", "link_issues", "link_workspaces", "link_executions", "persist_result_envelopes", "validate_protocol_documents"]);
    assert_eq!(to_json_string(&m.configuration).unwrap(), "{\"full_schema_validation\":true,\"task_packet_mode\":false}");
    assert_eq!(to_json_string(m.metadata.as_ref().unwrap()).unwrap(), "{\"status\":\"persistence_api_v1\"}");
    assert!(check_adapter_manifest(&clean(), &manifest_document("0.1.2")).is_ok());
    assert!(matches!(check_adapter_manifest(&clean(), &manifest_document("")), Err(ApiFailure::BadRequest(m)) if m.starts_with("Invalid adapter manifest: /version: ")));
    let unavailable: Result<ProtocolValidators, String> = Err("adapter manifest: EOF".to_string());
    assert!(matches!(check_adapter_manifest(&unavailable, &manifest_document("0.1.2")), Err(ApiFailure::BadRequest(m)) if m == "Protocol schema setup failed: adapter manifest: EOF"));
}

#[test]
fn tool_request_bodies() {
    let body = compile_request_payload(None, Some(vec!["cargo test".to_string()]));
    assert_eq!(to_json_string(&body).unwrap(), "{\"acceptance\":[\"cargo test\"],\"kind\":null}");
    let body = compile_request_payload(Some("implementation".to_string()), None);
    assert_eq!(to_json_string(&body).unwrap(), "{\"acceptance\":null,\"kind\":\"implementation\"}");
    let plan = plan_result_submission(Some("ws-1".to_string()), Ok(obj(vec![("schema_version", num(1))]))).unwrap();
    assert_eq!(to_json_string(&plan).unwrap(), "{\"execution_process_id\":null,\"result\":{\"schema_version\":1},\"workspace_id\":\"ws-1\"}");
    let f = plan_result_submission(None, Ok(JsonValue::Null)).unwrap_err();
    assert_eq!(f.message, "Task Packet result submission requires workspace context");
    assert!(f.detail.is_none());
    let f = plan_result_submission(Some("w".to_string()), Err("expected value".to_string())).unwrap_err();
    assert_eq!(f.message, "The Result Envelope JSON string is invalid");
    assert_eq!(f.detail.unwrap(), "expected value");
}
