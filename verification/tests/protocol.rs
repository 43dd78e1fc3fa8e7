use task_packet_protocol::json::{JsonNumber, JsonValue};
use task_packet_protocol::order::{compare_text, TextOrder};
use task_packet_protocol::protocol::{
    canonical_json, document_sha256, kind_name, report_findings, validate,
    validate_adapter_manifest, validate_integration_ledger, validate_result_envelope,
    validate_task_packet, DocumentKind, ProtocolError,
};
use task_packet_protocol::schema::{build_validators, ProtocolValidators, SchemaIssue, SchemaSources};
use task_packet_protocol::canonical::canonical_value;
use task_packet_protocol::digest::{sha256_hex, to_lower_hex};
use task_packet_protocol::text::to_json_string;

fn num(n: u64) -> JsonValue {
    JsonValue::Number(JsonNumber::PosInt(n))
}

fn text(s: &str) -> JsonValue {
    JsonValue::String(s.to_string())
}

fn obj(entries: Vec<(&str, JsonValue)>) -> JsonValue {
    JsonValue::Object(entries.into_iter().map(|(k, v)| (k.to_string(), v)).collect())
}

const TASK_PACKET_SCHEMA: &str = r#"{
  "$schema": "https://json-schema.org/draft/2020-12/schema",
  "type": "object",
  "required": ["schema_version", "packet_id", "task_id", "title", "objective", "scope"],
  "properties": {
    "schema_version": {"const": 1},
    "packet_id": {"type": "string", "minLength": 1},
    "task_id": {"type": "string", "minLength": 1},
    "title": {"type": "string"},
    "objective": {"type": "string"},
    "scope": {
      "type": "object",
      "required": ["write"],
      "properties": {"write": {"type": "array", "items": {"type": "string"}}}
    },
    "context": {"$ref": "context-slice.schema.json"}
  }
}"#;

const RESULT_ENVELOPE_SCHEMA: &str = r#"{
  "type": "object",
  "required": ["schema_version", "packet_id", "task_id", "status"],
  "properties": {
    "status": {"enum": ["complete", "blocked", "failed"]},
    "provenance": {"$ref": "execution-provenance.schema.json"}
  }
}"#;

const INTEGRATION_LEDGER_SCHEMA: &str = r#"{
  "type": "object",
  "required": ["entries"],
  "properties": {"entries": {"type": "array", "items": {"type": "object"}}}
}"#;

const ADAPTER_MANIFEST_SCHEMA: &str = r#"{
  "type": "object",
  "required": ["adapter_id", "version", "capabilities"],
  "properties": {
    "version": {"type": "string", "minLength": 1},
    "capabilities": {"type": "array", "items": {"type": "string"}}
  }
}"#;

const CONTEXT_SLICE_SCHEMA: &str = r#"{"type": "object", "required": ["files"]}"#;

const EXECUTION_PROVENANCE_SCHEMA: &str = r#"{"type": "object", "required": ["executor"]}"#;

fn sources() -> SchemaSources {
    SchemaSources {
        adapter_manifest: ADAPTER_MANIFEST_SCHEMA.to_string(),
        context_slice: CONTEXT_SLICE_SCHEMA.to_string(),
        execution_provenance: EXECUTION_PROVENANCE_SCHEMA.to_string(),
        integration_ledger: INTEGRATION_LEDGER_SCHEMA.to_string(),
        result_envelope: RESULT_ENVELOPE_SCHEMA.to_string(),
        task_packet: TASK_PACKET_SCHEMA.to_string(),
    }
}

fn validators() -> Result<ProtocolValidators, String> {
    let built = build_validators(sources());
    assert!(built.is_ok(), "schemas did not compile: {:?}", built.as_ref().err());
    built
}

fn example_task_packet() -> JsonValue {
    obj(vec![
        ("schema_version", num(1)),
        ("packet_id", text("weather-042-client")),
        ("task_id", text("weather-042-client")),
        ("title", text("Weather client")),
        ("objective", text("Add a client for the weather service")),
        ("scope", obj(vec![("write", JsonValue::Array(vec![text("application")]))])),
        ("context", obj(vec![("files", JsonValue::Array(vec![text("src/weather.rs")]))])),
    ])
}

fn example_result_envelope() -> JsonValue {
    obj(vec![
        ("schema_version", num(1)),
        ("packet_id", text("weather-042-client")),
        ("task_id", text("weather-042-client")),
        ("status", text("complete")),
        ("provenance", obj(vec![("executor", text("CLAUDE_CODE"))])),
    ])
}

fn example_integration_ledger() -> JsonValue {
    obj(vec![("entries", JsonValue::Array(vec![obj(vec![("packet_id", text("weather-042-client"))])]))])
}

fn example_adapter_manifest() -> JsonValue {
    obj(vec![
        ("adapter_id", text("vibe-kanban")),
        ("version", text("0.1.2")),
        ("capabilities", JsonValue::Array(vec![text("persist_task_packets")])),
    ])
}

fn set_member(doc: &mut JsonValue, key: &str, value: JsonValue) {
    if let JsonValue::Object(entries) = doc {
        for entry in entries.iter_mut() {
            if entry.0 == key {
                entry.1 = value;
                return;
            }
        }
        entries.push((key.to_string(), value));
    }
}

fn issue(path: &str, message: &str) -> SchemaIssue {
    SchemaIssue { instance_path: path.to_string(), message: message.to_string() }
}

#[test]
fn canonical_digest_ignores_object_key_order() {
    let left = obj(vec![("b", num(2)), ("a", obj(vec![("d", num(4)), ("c", num(3))]))]);
    let right = obj(vec![("a", obj(vec![("c", num(3)), ("d", num(4))])), ("b", num(2))]);
    assert_eq!(canonical_json(&left).unwrap(), canonical_json(&right).unwrap());
    assert_eq!(document_sha256(&left).unwrap(), document_sha256(&right).unwrap());
}

#[test]
fn canonical_json_sorts_keys_at_every_depth() {
    let doc = obj(vec![("b", num(2)), ("a", obj(vec![("d", num(4)), ("c", num(3))]))]);
    assert_eq!(canonical_json(&doc).unwrap(), "{\"a\":{\"c\":3,\"d\":4},\"b\":2}");
}

#[test]
fn canonical_json_keeps_array_order_and_sorts_inside_arrays() {
    let doc = JsonValue::Array(vec![
        num(3),
        obj(vec![("z", JsonValue::Null), ("y", JsonValue::Bool(true))]),
        num(1),
    ]);
    assert_eq!(canonical_json(&doc).unwrap(), "[3,{\"y\":true,\"z\":null},1]");
}

#[test]
fn canonical_json_keeps_last_entry_of_repeated_key() {
    let doc = obj(vec![("a", num(1)), ("b", JsonValue::Bool(false)), ("a", num(2))]);
    assert_eq!(canonical_json(&doc).unwrap(), "{\"a\":2,\"b\":false}");
}

#[test]
fn canonical_json_escapes_strings() {
    let doc = obj(vec![("k\"ey", text("line\nbreak \\ \u{1}"))]);
    assert_eq!(canonical_json(&doc).unwrap(), "{\"k\\\"ey\":\"line\\nbreak \\\\ \\u0001\"}");
}

#[test]
fn canonical_json_writes_numbers() {
    let doc = JsonValue::Array(vec![
        JsonValue::Number(JsonNumber::NegInt(-9223372036854775808)),
        JsonValue::Number(JsonNumber::PosInt(18446744073709551615)),
        JsonValue::Number(JsonNumber::PosInt(0)),
        JsonValue::Number(JsonNumber::NegInt(-42)),
        JsonValue::Number(JsonNumber::Float("1.5".to_string())),
    ]);
    assert_eq!(
        canonical_json(&doc).unwrap(),
        "[-9223372036854775808,18446744073709551615,0,-42,1.5]"
    );
}

#[test]
fn canonical_json_orders_keys_by_utf8_bytes() {
    let doc = obj(vec![("é", num(1)), ("z", num(2)), ("B", num(3)), ("a", num(4)), ("", num(5))]);
    assert_eq!(
        canonical_json(&doc).unwrap(),
        "{\"\":5,\"B\":3,\"a\":4,\"z\":2,\"é\":1}"
    );
}

#[test]
fn canonical_value_is_idempotent() {
    let doc = obj(vec![("b", num(2)), ("a", JsonValue::Array(vec![obj(vec![("y", num(1)), ("x", num(0))])]))]);
    let once = canonical_value(&doc);
    let twice = canonical_value(&once);
    assert_eq!(to_json_string(&once).unwrap(), to_json_string(&twice).unwrap());
    assert_eq!(to_json_string(&once).unwrap(), canonical_json(&doc).unwrap());
    assert_eq!(canonical_json(&doc).unwrap(), canonical_json(&doc).unwrap());
}

#[test]
fn canonical_value_keeps_members() {
    let doc = obj(vec![("b", num(2)), ("a", text("x")), ("b", num(5))]);
    let canon = canonical_value(&doc);
    assert_eq!(canon.get("b").unwrap().as_i64(), Some(5));
    assert_eq!(canon.get("a").unwrap().as_str().unwrap(), "x");
    assert!(canon.get("c").is_none());
    assert_eq!(to_json_string(&canon).unwrap(), "{\"a\":\"x\",\"b\":5}");
}

#[test]
fn plain_json_keeps_entry_order() {
    let doc = obj(vec![("b", num(2)), ("a", text("x"))]);
    assert_eq!(to_json_string(&doc).unwrap(), "{\"b\":2,\"a\":\"x\"}");
    assert_eq!(to_json_string(&JsonValue::Array(vec![])).unwrap(), "[]");
    assert_eq!(to_json_string(&obj(vec![])).unwrap(), "{}");
}

#[test]
fn document_sha256_known_values() {
    let doc = obj(vec![("b", num(2)), ("a", obj(vec![("d", num(4)), ("c", num(3))]))]);
    assert_eq!(
        document_sha256(&doc).unwrap(),
        "c461c47a913352f1a21e3f2ea49e1fd34754c0dc12cb7366e4636d5e186c6c6e"
    );
    assert_eq!(
        document_sha256(&obj(vec![])).unwrap(),
        "44136fa355b3678a1146ad16f7e8649e94fb4fc21fe77e8310c060f61caaff8a"
    );
    assert_eq!(
        document_sha256(&JsonValue::Null).unwrap(),
        "74234e98afe7498fb5daf1f36ac2d78acc339464f950703b8c019892f982b90b"
    );
    assert_eq!(
        document_sha256(&obj(vec![("a", num(1)), ("a", num(2))])).unwrap(),
        "7e8059f495589fcd981232cc11d00b00da3802c01d688fa1cf1f6bed6e5bb33c"
    );
}

#[test]
fn sha256_hex_of_bytes() {
    assert_eq!(sha256_hex(b"{}"), "44136fa355b3678a1146ad16f7e8649e94fb4fc21fe77e8310c060f61caaff8a");
    assert_eq!(to_lower_hex(&[0x0a, 0x14, 0x1e, 0xff, 0x00]), "0a141eff00");
    assert_eq!(to_lower_hex(&[]), "");
}

#[test]
fn kind_names() {
    assert_eq!(kind_name(DocumentKind::AdapterManifest), "adapter manifest");
    assert_eq!(kind_name(DocumentKind::IntegrationLedger), "integration ledger");
    assert_eq!(kind_name(DocumentKind::ResultEnvelope), "result envelope");
    assert_eq!(kind_name(DocumentKind::TaskPacket), "task packet");
}

#[test]
fn validates_protocol_examples() {
    let validators = validators();
    validate_task_packet(&validators, &example_task_packet()).unwrap();
    validate_result_envelope(&validators, &example_result_envelope()).unwrap();
    validate(DocumentKind::IntegrationLedger, &validators, &example_integration_ledger()).unwrap();
    validate_adapter_manifest(&validators, &example_adapter_manifest()).unwrap();
    validate_integration_ledger(&validators, &example_integration_ledger()).unwrap();
}

#[test]
fn rejects_nested_schema_violations() {
    let validators = validators();
    let mut packet = example_task_packet();
    set_member(
        &mut packet,
        "scope",
        obj(vec![("write", JsonValue::Array(vec![obj(vec![("repository", text("application"))])]))]),
    );
    assert!(validate_task_packet(&validators, &packet).is_err());
}

#[test]
fn nested_violation_is_reported_at_its_path() {
    let validators = validators();
    let mut packet = example_task_packet();
    set_member(
        &mut packet,
        "scope",
        obj(vec![("write", JsonValue::Array(vec![obj(vec![("repository", text("application"))])]))]),
    );
    match validate_task_packet(&validators, &packet) {
        Err(ProtocolError::Validation { kind, details }) => {
            assert_eq!(kind, "task packet");
            assert!(details.starts_with("/scope/write/0: "), "{}", details);
            assert!(!details.contains("; "), "{}", details);
        }
        other => panic!("unexpected {:?}", other),
    }
}

#[test]
fn shared_schemas_are_checked_through_references() {
    let validators = validators();
    let mut packet = example_task_packet();
    set_member(&mut packet, "context", obj(vec![]));
    let err = validate_task_packet(&validators, &packet).unwrap_err();
    assert!(err.message().starts_with("Invalid task packet: /context: "), "{}", err.message());
    let mut envelope = example_result_envelope();
    set_member(&mut envelope, "provenance", obj(vec![]));
    let err = validate_result_envelope(&validators, &envelope).unwrap_err();
    assert!(err.message().starts_with("Invalid result envelope: /provenance: "), "{}", err.message());
}

#[test]
fn root_findings_have_no_path() {
    let validators = validators();
    match validate_adapter_manifest(&validators, &obj(vec![("adapter_id", text("a")), ("capabilities", JsonValue::Array(vec![]))])) {
        Err(ProtocolError::Validation { kind, details }) => {
            assert_eq!(kind, "adapter manifest");
            assert!(!details.starts_with('/'), "{}", details);
            assert!(details.contains("version"), "{}", details);
        }
        other => panic!("unexpected {:?}", other),
    }
}

#[test]
fn validation_gives_the_same_verdict_every_time() {
    let first = validators();
    let second = validators();
    let mut packet = example_task_packet();
    set_member(&mut packet, "packet_id", text(""));
    let a = validate_task_packet(&first, &packet).unwrap_err().message();
    let b = validate_task_packet(&first, &packet).unwrap_err().message();
    let c = validate_task_packet(&second, &packet).unwrap_err().message();
    assert_eq!(a, b);
    assert_eq!(a, c);
    assert!(validate_task_packet(&second, &example_task_packet()).is_ok());
}

#[test]
fn unreadable_document_is_invalid() {
    let validators = validators();
    let doc = obj(vec![("entries", JsonValue::Array(vec![JsonValue::Number(JsonNumber::Float("nope".to_string()))]))]);
    match validate(DocumentKind::IntegrationLedger, &validators, &doc) {
        Err(ProtocolError::Validation { kind, details }) => {
            assert_eq!(kind, "integration ledger");
            assert!(!details.is_empty());
        }
        other => panic!("unexpected {:?}", other),
    }
}

#[test]
fn schema_setup_names_the_schema_that_is_not_json() {
    let mut bad = sources();
    bad.task_packet = "{not json".to_string();
    let err = build_validators(bad).err().unwrap();
    assert!(err.starts_with("task packet: "), "{}", err);
    let mut bad = sources();
    bad.context_slice = "[".to_string();
    bad.task_packet = "{not json".to_string();
    let err = build_validators(bad).err().unwrap();
    assert!(err.starts_with("context slice: "), "{}", err);
}

#[test]
fn schema_setup_refuses_a_schema_that_does_not_compile() {
    let mut bad = sources();
    bad.integration_ledger = r#"{"type": 12}"#.to_string();
    let err = build_validators(bad).err().unwrap();
    assert!(!err.is_empty());
    assert!(!err.starts_with("integration ledger: "), "{}", err);
}

#[test]
fn setup_failure_refuses_every_document() {
    let failed: Result<ProtocolValidators, String> = Err("task packet: bad schema".to_string());
    let err = validate(DocumentKind::TaskPacket, &failed, &example_task_packet()).unwrap_err();
    assert_eq!(err.message(), "Protocol schema setup failed: task packet: bad schema");
    let err = validate_adapter_manifest(&failed, &example_adapter_manifest()).unwrap_err();
    assert_eq!(err.message(), "Protocol schema setup failed: task packet: bad schema");
}

#[test]
fn report_without_findings_is_ok() {
    assert!(report_findings(DocumentKind::IntegrationLedger, &vec![]).is_ok());
    assert!(report_findings(DocumentKind::TaskPacket, &vec![]).is_ok());
}

#[test]
fn report_joins_path_and_message() {
    let issues = vec![issue("/scope/write/0", "{\"repository\":\"application\"} is not of type \"string\"")];
    match report_findings(DocumentKind::TaskPacket, &issues) {
        Err(ProtocolError::Validation { kind, details }) => {
            assert_eq!(kind, "task packet");
            assert_eq!(details, "/scope/write/0: {\"repository\":\"application\"} is not of type \"string\"");
        }
        other => panic!("unexpected {:?}", other),
    }
}

#[test]
fn report_carries_at_most_eight_findings() {
    let mut issues = Vec::new();
    issues.push(issue("", "root problem"));
    for i in 1..10 {
        issues.push(issue(&format!("/f{}", i), &format!("problem {}", i)));
    }
    let err = report_findings(DocumentKind::ResultEnvelope, &issues).unwrap_err();
    assert_eq!(
        err.message(),
        "Invalid result envelope: root problem; /f1: problem 1; /f2: problem 2; /f3: problem 3; \
         /f4: problem 4; /f5: problem 5; /f6: problem 6; /f7: problem 7"
    );
}

#[test]
fn protocol_error_messages() {
    assert_eq!(
        ProtocolError::Serialization("boom".to_string()).message(),
        "Canonical JSON serialization failed: boom"
    );
    assert_eq!(
        ProtocolError::Validation { kind: "task packet", details: "x".to_string() }.message(),
        "Invalid task packet: x"
    );
}

#[test]
fn text_order_is_bytewise() {
    assert_eq!(compare_text("B", "a"), TextOrder::Less);
    assert_eq!(compare_text("z", "é"), TextOrder::Less);
    assert_eq!(compare_text("ab", "a"), TextOrder::Greater);
    assert_eq!(compare_text("same", "same"), TextOrder::Equal);
    assert_eq!(compare_text("", "a"), TextOrder::Less);
}

#[test]
fn json_member_access() {
    let doc = obj(vec![("a", num(1)), ("s", text("x")), ("a", num(7)), ("big", num(u64::MAX)), ("neg", JsonValue::Number(JsonNumber::NegInt(-3)))]);
    assert_eq!(doc.get("a").unwrap().as_i64(), Some(7));
    assert_eq!(doc.get("s").unwrap().as_str().unwrap(), "x");
    assert!(doc.get("a").unwrap().as_str().is_none());
    assert!(doc.get("missing").is_none());
    assert_eq!(doc.get("big").unwrap().as_i64(), None);
    assert_eq!(doc.get("neg").unwrap().as_i64(), Some(-3));
    assert!(JsonValue::Array(vec![]).get("a").is_none());
    assert_eq!(JsonValue::Number(JsonNumber::Float("1.0".to_string())).as_i64(), None);
}

#[test]
fn string_escapes_follow_json() {
    let doc = text("\u{8}\u{c}\t\r\u{1f}\u{7f}é/\u{1F600}");
    assert_eq!(to_json_string(&doc).unwrap(), "\"\\b\\f\\t\\r\\u001f\u{7f}é/\u{1F600}\"");
}
