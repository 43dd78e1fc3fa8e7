use vstd::prelude::*;
use crate::json::{entry_models, lemma_entry_models, JsonModel, JsonValue};
use crate::protocol::{
    is_verdict, protocol_error_text, schema_findings, validate_adapter_manifest, DocumentKind,
    ProtocolError, SCHEMA_VERSION,
};
use crate::task_packet::{schema_clean, TaskPacketError, SUPPORTED_TASK_PACKET_SCHEMA_VERSION};
use crate::schema::ProtocolValidators;
use crate::text::push_text;

verus! {

/// How the HTTP API answers a failed task-packet request.
#[derive(Debug)]
pub enum ApiFailure {
    /// A database failure, with its message.
    Database(String),
    /// The request is at fault; the text says how.
    BadRequest(String),
    /// The request clashes with what is stored.
    Conflict(String),
}

/// The API answer to each task-packet error.
pub open spec fn is_api_failure_for(e: TaskPacketError, f: ApiFailure) -> bool {
    match e {
        TaskPacketError::Database(m) => f matches ApiFailure::Database(t) && t@ == m@,
        TaskPacketError::Serde(m) => f matches ApiFailure::BadRequest(t) && t@ == m@,
        TaskPacketError::Protocol(p) => f matches ApiFailure::BadRequest(t) && t@
            == protocol_error_text(p),
        TaskPacketError::InvalidDocument(m) => f matches ApiFailure::BadRequest(t) && t@ == m@,
        TaskPacketError::NotFound => f matches ApiFailure::BadRequest(t) && t@
            == "Task packet not found"@,
        TaskPacketError::DuplicatePacketId(id) => f matches ApiFailure::Conflict(t) && t@
            == "Task packet '"@ + id@ + "' already exists"@,
    }
}

/// Maps a task-packet error to the API's answer: database failures stay
/// database failures, a duplicate packet id is a conflict, everything else a
/// bad request carrying the error's message.
pub fn api_failure(error: &TaskPacketError) -> (res: ApiFailure)
    ensures
        is_api_failure_for(*error, res),
{
    match error {
        TaskPacketError::Database(m) => ApiFailure::Database(m.clone()),
        TaskPacketError::Serde(m) => ApiFailure::BadRequest(m.clone()),
        TaskPacketError::Protocol(p) => ApiFailure::BadRequest(p.message()),
        TaskPacketError::InvalidDocument(m) => ApiFailure::BadRequest(m.clone()),
        TaskPacketError::NotFound => {
            let mut t = String::new();
            push_text(&mut t, "Task packet not found");
            ApiFailure::BadRequest(t)
        },
        TaskPacketError::DuplicatePacketId(id) => {
            let mut t = String::new();
            push_text(&mut t, "Task packet '");
            push_text(&mut t, id.as_str());
            push_text(&mut t, "' already exists");
            ApiFailure::Conflict(t)
        },
    }
}

/// The adapter manifest that the server publishes.
#[derive(Debug)]
pub struct TaskPacketAdapterManifest {
    pub schema_version: u64,
    pub adapter_id: &'static str,
    pub adapter_kind: &'static str,
    pub display_name: &'static str,
    pub version: &'static str,
    pub protocol_versions: Vec<u64>,
    pub capabilities: Vec<String>,
    pub configuration: JsonValue,
    pub metadata: Option<JsonValue>,
}

/// The capabilities the server claims, in order.
pub open spec fn server_capabilities() -> Seq<Seq<char>> {
    seq![
        "persist_task_packets"@,
        "link_issues"@,
        "link_workspaces"@,
        "link_executions"@,
        "persist_result_envelopes"@,
        "validate_protocol_documents"@,
    ]
}

fn bool_member(key: &str, value: bool) -> (res: (String, JsonValue))
    ensures
        res.0@ == key@,
        res.1.model() == JsonModel::Bool(value),
{
    (key.to_owned(), JsonValue::Bool(value))
}

impl TaskPacketAdapterManifest {
    /// The manifest of this server, for the software version `version`.
    pub fn vibe_kanban(version: &'static str) -> (m: Self)
        ensures
            m.schema_version == SUPPORTED_TASK_PACKET_SCHEMA_VERSION,
            m.adapter_id@ == "vibe-kanban"@,
            m.adapter_kind@ == "orchestrator"@,
            m.display_name@ == "Vibe Kanban"@,
            m.version@ == version@,
            m.protocol_versions@ == seq![SUPPORTED_TASK_PACKET_SCHEMA_VERSION as u64],
            m.capabilities@.len() == server_capabilities().len(),
            forall|i: int|
                0 <= i < server_capabilities().len() ==> #[trigger] m.capabilities@[i]@
                    == server_capabilities()[i],
            m.configuration.model() == JsonModel::Object(
                seq![
                    ("full_schema_validation"@, JsonModel::Bool(true)),
                    ("task_packet_mode"@, JsonModel::Bool(false)),
                ],
            ),
            m.metadata matches Some(md) && md.model() == JsonModel::Object(
                seq![("status"@, JsonModel::Str("persistence_api_v1"@))],
            ),
    {
        let mut capabilities: Vec<String> = Vec::new();
        capabilities.push("persist_task_packets".to_owned());
        capabilities.push("link_issues".to_owned());
        capabilities.push("link_workspaces".to_owned());
        capabilities.push("link_executions".to_owned());
        capabilities.push("persist_result_envelopes".to_owned());
        capabilities.push("validate_protocol_documents".to_owned());
        let mut configuration: Vec<(String, JsonValue)> = Vec::new();
        configuration.push(bool_member("full_schema_validation", true));
        configuration.push(bool_member("task_packet_mode", false));
        let mut metadata: Vec<(String, JsonValue)> = Vec::new();
        metadata.push(("status".to_owned(), JsonValue::String("persistence_api_v1".to_owned())));
        proof {
            lemma_entry_models(configuration@);
            lemma_entry_models(metadata@);
            reveal_strlit("persistence_api_v1");
            assert(entry_models(configuration@) =~= seq![
                ("full_schema_validation"@, JsonModel::Bool(true)),
                ("task_packet_mode"@, JsonModel::Bool(false)),
            ]);
            assert(entry_models(metadata@) =~= seq![("status"@, JsonModel::Str("persistence_api_v1"@))]);
        }
        let mut protocol_versions: Vec<u64> = Vec::new();
        protocol_versions.push(SCHEMA_VERSION);
        let m = TaskPacketAdapterManifest {
            schema_version: SCHEMA_VERSION,
            adapter_id: "vibe-kanban",
            adapter_kind: "orchestrator",
            display_name: "Vibe Kanban",
            version,
            protocol_versions,
            capabilities,
            configuration: JsonValue::Object(configuration),
            metadata: Some(JsonValue::Object(metadata)),
        };
        m
    }
}

/// Whether the published manifest may be served, given the protocol's
/// schemas as set up and the manifest as a JSON document: a manifest that
/// fails its schema check is a bad request carrying the validation error's
/// message.
pub fn check_adapter_manifest(
    validators: &Result<ProtocolValidators, String>,
    manifest: &JsonValue,
) -> (res: Result<(), ApiFailure>)
    ensures
        ({
            let findings = schema_findings(*validators, DocumentKind::AdapterManifest, manifest.model());
            match res {
                Ok(()) => schema_clean(findings),
                Err(f) => !schema_clean(findings) && exists|p: ProtocolError|
                    #[trigger] is_verdict(DocumentKind::AdapterManifest, findings, Err(p)) && (
                    f matches ApiFailure::BadRequest(t) && t@ == protocol_error_text(p)),
            }
        }),
{
    match validate_adapter_manifest(validators, manifest) {
        Ok(()) => Ok(()),
        Err(p) => {
            let t = p.message();
            let f = ApiFailure::BadRequest(t);
            assert(is_verdict(
                DocumentKind::AdapterManifest,
                schema_findings(*validators, DocumentKind::AdapterManifest, manifest.model()),
                Err(p),
            ));
            Err(f)
        },
    }
}

} // verus!
