use vstd::prelude::*;
use jsonschema::Registry;
use serde_json::Value;
use crate::protocol::DocumentKind;
use crate::text::push_text;

verus! {

/// The address under which the context-slice schema is registered; the
/// other schemas refer to it relative to `SCHEMA_BASE_URI`.
pub const CONTEXT_SLICE_URI: &'static str = "https://task-packet.local/schemas/context-slice.schema.json";

/// The address under which the execution-provenance schema is registered.
pub const EXECUTION_PROVENANCE_URI: &'static str = "https://task-packet.local/schemas/execution-provenance.schema.json";

/// Where the protocol's schemas live; `$ref`s between them resolve against it.
pub const SCHEMA_BASE_URI: &'static str = "https://task-packet.local/schemas/";

/// The error `serde_json::from_str::<serde_json::Value>` reports for a text
/// that is not JSON; `None` for JSON.
pub uninterp spec fn json_syntax_error(text: Seq<char>) -> Option<Seq<char>>;

/// Why jsonschema fails to compile `schema` (draft 2020-12, base URI
/// `SCHEMA_BASE_URI`, format checking on) with the two shared schemas in its
/// registry; `None` when it compiles.  jsonschema is built without its http
/// and file resolvers, so nothing but the three texts is read.
pub uninterp spec fn schema_compile_error(
    schema: Seq<char>,
    context_slice: Seq<char>,
    execution_provenance: Seq<char>,
) -> Option<Seq<char>>;

/// What jsonschema finds wrong with the JSON text `document` under the schema
/// compiled from the three texts: each finding as (JSON pointer, message),
/// in the order the validator reports them.
pub uninterp spec fn schema_issues(
    schema: Seq<char>,
    context_slice: Seq<char>,
    execution_provenance: Seq<char>,
    document: Seq<char>,
) -> Seq<(Seq<char>, Seq<char>)>;

/// One finding of a JSON-schema validator: where in the document (a JSON
/// pointer, empty for the root) and what is wrong.
#[derive(Debug)]
pub struct SchemaIssue {
    pub instance_path: String,
    pub message: String,
}

/// Findings as (path, message) pairs.
pub open spec fn issues_view(issues: Seq<SchemaIssue>) -> Seq<(Seq<char>, Seq<char>)> {
    issues.map_values(|i: SchemaIssue| (i.instance_path@, i.message@))
}

/// `serde_json::from_str::<serde_json::Value>`: whether the text is JSON,
/// and if not, the parser's message.
#[verifier::external_body]
fn json_syntax(text: &str) -> (res: Option<String>)
    ensures
        match res {
            Some(m) => json_syntax_error(text@) == Some(m@),
            None => json_syntax_error(text@) is None,
        },
{
    serde_json::from_str::<Value>(text).err().map(|error| error.to_string())
}

/// `jsonschema::draft202012::options()` with base URI `SCHEMA_BASE_URI`,
/// a `Registry` holding the two shared schemas (under `CONTEXT_SLICE_URI`
/// and `EXECUTION_PROVENANCE_URI`), and format checking on,
/// then `build` on the schema (each text read by `serde_json::from_str`):
/// whether that compiles, and if not, the error's message.
#[verifier::external_body]
fn compile_schema(schema: &str, context_slice: &str, execution_provenance: &str) -> (res: Result<(), String>)
    ensures
        match res {
            Ok(()) => schema_compile_error(schema@, context_slice@, execution_provenance@) is None,
            Err(m) => schema_compile_error(schema@, context_slice@, execution_provenance@) == Some(m@),
        },
{
    let read = |t: &str| serde_json::from_str::<Value>(t).map_err(|e| e.to_string());
    let root = read(schema)?;
    let shared = [(CONTEXT_SLICE_URI, read(context_slice)?), (EXECUTION_PROVENANCE_URI, read(execution_provenance)?)];
    let registry = Registry::new().extend(shared).and_then(|r| r.prepare()).map_err(|e| e.to_string())?;
    let options = jsonschema::draft202012::options().with_base_uri(SCHEMA_BASE_URI).with_registry(&registry);
    options.should_validate_formats(true).build(&root).map(|_| ()).map_err(|e| e.to_string())
}

/// The schema compiled as `compile_schema` compiles it, then
/// `Validator::iter_errors` on the document that the JSON text `document`
/// holds (read by `serde_json::from_str`): each finding with its instance
/// path and message; a document text that is not JSON gives the parser's
/// message.  The schema must compile (`requires`), so the steps that
/// compile it, the same calls as in `compile_schema`, cannot fail here.
#[verifier::external_body]
fn find_schema_issues(
    schema: &str,
    context_slice: &str,
    execution_provenance: &str,
    document: &str,
) -> (res: Result<Vec<SchemaIssue>, String>)
    requires
        schema_compile_error(schema@, context_slice@, execution_provenance@) is None,
    ensures
        match res {
            Ok(issues) => json_syntax_error(document@) is None && issues_view(issues@)
                == schema_issues(schema@, context_slice@, execution_provenance@, document@),
            Err(m) => json_syntax_error(document@) == Some(m@),
        },
{
    let read = |t: &str| serde_json::from_str::<Value>(t);
    let instance = read(document).map_err(|e| e.to_string())?;
    let shared = [(CONTEXT_SLICE_URI, read(context_slice).unwrap()), (EXECUTION_PROVENANCE_URI, read(execution_provenance).unwrap())];
    let registry = Registry::new().extend(shared).and_then(|r| r.prepare()).unwrap();
    let validator = jsonschema::draft202012::options().with_base_uri(SCHEMA_BASE_URI).with_registry(&registry)
        .should_validate_formats(true).build(&read(schema).unwrap()).unwrap();
    let issues = validator.iter_errors(&instance).map(|e| SchemaIssue { instance_path: e.instance_path().to_string(), message: e.to_string() });
    Ok(issues.collect())
}

/// The texts of the protocol's six schemas.
pub struct SchemaSources {
    pub adapter_manifest: String,
    pub context_slice: String,
    pub execution_provenance: String,
    pub integration_ledger: String,
    pub result_envelope: String,
    pub task_packet: String,
}

/// The error of reading one schema text: its name, then the parser's message.
pub open spec fn parse_failure(name: Seq<char>, text: Seq<char>) -> Option<Seq<char>> {
    match json_syntax_error(text) {
        Some(e) => Some(name + ": "@ + e),
        None => None,
    }
}

/// The first of two possible failures.
pub open spec fn first_failure(a: Option<Seq<char>>, b: Option<Seq<char>>) -> Option<Seq<char>> {
    match a {
        Some(_) => a,
        None => b,
    }
}

/// Why setting the schemas up fails, `None` when it succeeds: the six texts
/// are read in turn (adapter manifest, context slice, execution provenance,
/// integration ledger, result envelope, task packet) and the first that is
/// not JSON decides; then the four kinds' schemas are compiled in that order
/// and the first failure decides.
pub open spec fn setup_failure(s: SchemaSources) -> Option<Seq<char>> {
    let shared = (s.context_slice@, s.execution_provenance@);
    first_failure(parse_failure("adapter manifest"@, s.adapter_manifest@),
    first_failure(parse_failure("context slice"@, s.context_slice@),
    first_failure(parse_failure("execution provenance"@, s.execution_provenance@),
    first_failure(parse_failure("integration ledger"@, s.integration_ledger@),
    first_failure(parse_failure("result envelope"@, s.result_envelope@),
    first_failure(parse_failure("task packet"@, s.task_packet@),
    first_failure(schema_compile_error(s.adapter_manifest@, shared.0, shared.1),
    first_failure(schema_compile_error(s.integration_ledger@, shared.0, shared.1),
    first_failure(schema_compile_error(s.result_envelope@, shared.0, shared.1),
    schema_compile_error(s.task_packet@, shared.0, shared.1))))))))))
}

fn read_schema(name: &str, text: &str) -> (res: Result<(), String>)
    ensures
        match res {
            Ok(()) => parse_failure(name@, text@) is None,
            Err(m) => parse_failure(name@, text@) == Some(m@),
        },
{
    match json_syntax(text) {
        None => Ok(()),
        Some(e) => {
            let mut m = String::new();
            push_text(&mut m, name);
            push_text(&mut m, ": ");
            push_text(&mut m, e.as_str());
            Err(m)
        },
    }
}

fn compile(schema: &String, sources: &SchemaSources) -> (res: Result<(), String>)
    ensures
        match res {
            Ok(()) => schema_compile_error(schema@, sources.context_slice@, sources.execution_provenance@) is None,
            Err(m) => schema_compile_error(schema@, sources.context_slice@, sources.execution_provenance@)
                == Some(m@),
        },
{
    compile_schema(schema.as_str(), sources.context_slice.as_str(), sources.execution_provenance.as_str())
}

/// The texts of the schema of `kind` and of the two shared schemas.
pub open spec fn schema_texts(s: SchemaSources, kind: DocumentKind) -> (Seq<char>, Seq<char>, Seq<char>) {
    let schema = match kind {
        DocumentKind::AdapterManifest => s.adapter_manifest@,
        DocumentKind::IntegrationLedger => s.integration_ledger@,
        DocumentKind::ResultEnvelope => s.result_envelope@,
        DocumentKind::TaskPacket => s.task_packet@,
    };
    (schema, s.context_slice@, s.execution_provenance@)
}

/// The protocol's schemas, set up: the six texts are JSON and the four
/// kinds' schemas compile.
pub struct ProtocolValidators {
    sources: SchemaSources,
}

impl ProtocolValidators {
    /// The schema texts these validators were set up from.
    pub closed spec fn sources(self) -> SchemaSources {
        self.sources
    }

    #[verifier::type_invariant]
    spec fn set_up(self) -> bool {
        setup_failure(self.sources) is None
    }

    /// What the schema of `kind` finds in the JSON text `document`, or, when
    /// the text is not JSON, the parser's message.
    pub fn find_issues(&self, kind: DocumentKind, document: &str) -> (res: Result<Vec<SchemaIssue>, String>)
        ensures
            ({
                let (schema, context_slice, execution_provenance) = schema_texts(self.sources(), kind);
                match res {
                    Ok(issues) => json_syntax_error(document@) is None && issues_view(issues@)
                        == schema_issues(schema, context_slice, execution_provenance, document@),
                    Err(m) => json_syntax_error(document@) == Some(m@),
                }
            }),
    {
        proof {
            use_type_invariant(self);
        }
        let s = &self.sources;
        let schema = match kind {
            DocumentKind::AdapterManifest => &s.adapter_manifest,
            DocumentKind::IntegrationLedger => &s.integration_ledger,
            DocumentKind::ResultEnvelope => &s.result_envelope,
            DocumentKind::TaskPacket => &s.task_packet,
        };
        find_schema_issues(
            schema.as_str(),
            s.context_slice.as_str(),
            s.execution_provenance.as_str(),
            document,
        )
    }
}

/// Sets the protocol's schemas up: reads the six texts, then compiles the
/// four kinds' schemas against the two shared ones.  Fails with the first
/// problem met, as `setup_failure` says.
pub fn build_validators(sources: SchemaSources) -> (res: Result<ProtocolValidators, String>)
    ensures
        match res {
            Ok(v) => setup_failure(sources) is None && v.sources() == sources,
            Err(m) => setup_failure(sources) == Some(m@),
        },
{
    read_schema("adapter manifest", sources.adapter_manifest.as_str())?;
    read_schema("context slice", sources.context_slice.as_str())?;
    read_schema("execution provenance", sources.execution_provenance.as_str())?;
    read_schema("integration ledger", sources.integration_ledger.as_str())?;
    read_schema("result envelope", sources.result_envelope.as_str())?;
    read_schema("task packet", sources.task_packet.as_str())?;
    compile(&sources.adapter_manifest, &sources)?;
    compile(&sources.integration_ledger, &sources)?;
    compile(&sources.result_envelope, &sources)?;
    compile(&sources.task_packet, &sources)?;
    Ok(ProtocolValidators { sources })
}

} // verus!
