use vstd::prelude::*;
use vstd::utf8::encode_utf8;
use crate::canonical::{
    canonical_value, is_canonical_form, law_canonical_form_idempotent, law_canonical_form_unique,
    law_same_document_reflexive, law_same_document_same_canonical_form, same_document,
};
use crate::digest::{lower_hex, sha256, sha256_hex};
use crate::json::{JsonModel, JsonValue};
use crate::schema::{
    issues_view, json_syntax_error, schema_issues, schema_texts, ProtocolValidators, SchemaIssue,
};
use crate::text::{json_text, push_text, to_json_string, write_json};

verus! {

/// The four kinds of protocol document that carry a JSON schema.
#[derive(Debug, Clone, Copy, PartialEq, Eq, Structural)]
pub enum DocumentKind {
    AdapterManifest,
    IntegrationLedger,
    ResultEnvelope,
    TaskPacket,
}

/// The human-readable name of a document kind, as used in error messages.
pub open spec fn kind_label(kind: DocumentKind) -> Seq<char> {
    match kind {
        DocumentKind::AdapterManifest => "adapter manifest"@,
        DocumentKind::IntegrationLedger => "integration ledger"@,
        DocumentKind::ResultEnvelope => "result envelope"@,
        DocumentKind::TaskPacket => "task packet"@,
    }
}

pub fn kind_name(kind: DocumentKind) -> (name: &'static str)
    ensures
        name@ == kind_label(kind),
{
    match kind {
        DocumentKind::AdapterManifest => "adapter manifest",
        DocumentKind::IntegrationLedger => "integration ledger",
        DocumentKind::ResultEnvelope => "result envelope",
        DocumentKind::TaskPacket => "task packet",
    }
}

/// The protocol version these documents follow.
pub const SCHEMA_VERSION: u64 = 1;

/// What can go wrong with a protocol document.
#[derive(Debug)]
pub enum ProtocolError {
    /// The schemas could not be set up; the text says why.
    Schema(String),
    /// The document breaks its schema.
    Validation { kind: &'static str, details: String },
    /// Canonical JSON could not be written.
    Serialization(String),
}

/// The message of a protocol error.
pub open spec fn protocol_error_text(e: ProtocolError) -> Seq<char> {
    match e {
        ProtocolError::Schema(m) => "Protocol schema setup failed: "@ + m@,
        ProtocolError::Validation { kind, details } => "Invalid "@ + kind@ + ": "@ + details@,
        ProtocolError::Serialization(m) => "Canonical JSON serialization failed: "@ + m@,
    }
}

impl ProtocolError {
    /// The human-readable message of the error.
    pub fn message(&self) -> (res: String)
        ensures
            res@ == protocol_error_text(*self),
    {
        let mut out = String::new();
        match self {
            ProtocolError::Schema(m) => {
                push_text(&mut out, "Protocol schema setup failed: ");
                push_text(&mut out, m.as_str());
            },
            ProtocolError::Validation { kind, details } => {
                push_text(&mut out, "Invalid ");
                push_text(&mut out, kind);
                push_text(&mut out, ": ");
                push_text(&mut out, details.as_str());
            },
            ProtocolError::Serialization(m) => {
                push_text(&mut out, "Canonical JSON serialization failed: ");
                push_text(&mut out, m.as_str());
            },
        }
        out
    }
}

/// How many findings an error report carries at most.
pub const REPORTED_ISSUE_LIMIT: usize = 8;

/// A finding as one line: the message, after its path when it has one.
pub open spec fn issue_line(issue: (Seq<char>, Seq<char>)) -> Seq<char> {
    if issue.0.len() == 0 {
        issue.1
    } else {
        issue.0 + ": "@ + issue.1
    }
}

/// Findings as lines joined by `"; "`.
pub open spec fn issue_lines(issues: Seq<(Seq<char>, Seq<char>)>) -> Seq<char>
    decreases issues.len(),
{
    if issues.len() == 0 {
        Seq::empty()
    } else if issues.len() == 1 {
        issue_line(issues[0])
    } else {
        issue_lines(issues.drop_last()) + "; "@ + issue_line(issues.last())
    }
}

/// The details of a validation error: the first findings, up to the limit.
pub open spec fn reported_details(issues: Seq<(Seq<char>, Seq<char>)>) -> Seq<char> {
    if issues.len() <= REPORTED_ISSUE_LIMIT {
        issue_lines(issues)
    } else {
        issue_lines(issues.take(REPORTED_ISSUE_LIMIT as int))
    }
}

/// Findings are reported one after another, separated by `"; "`: the lines
/// of `a + b` are the lines of `a`, a separator, and the lines of `b`.
pub proof fn law_issue_lines_concat(a: Seq<(Seq<char>, Seq<char>)>, b: Seq<(Seq<char>, Seq<char>)>)
    requires
        a.len() > 0,
        b.len() > 0,
    ensures
        issue_lines(a + b) == issue_lines(a) + "; "@ + issue_lines(b),
    decreases b.len(),
{
    if b.len() == 1 {
        assert((a + b).drop_last() =~= a);
        assert((a + b).last() == b[0]);
    } else {
        assert((a + b).drop_last() =~= a + b.drop_last());
        assert((a + b).last() == b.last());
        law_issue_lines_concat(a, b.drop_last());
        assert(issue_lines(a + b) =~= issue_lines(a) + "; "@ + issue_lines(b));
    }
}

/// A report shows at most the first eight findings: findings after the
/// eighth change nothing in it, and up to eight every finding is shown.
pub proof fn law_report_shows_first_eight(a: Seq<(Seq<char>, Seq<char>)>, b: Seq<(Seq<char>, Seq<char>)>)
    ensures
        a.len() == 8 ==> reported_details(a + b) == issue_lines(a),
        a.len() + b.len() <= 8 ==> reported_details(a + b) == issue_lines(a + b),
{
    if a.len() == 8 {
        assert((a + b).take(8) =~= a);
    }
}

/// What checking a document against its schema comes to.
pub enum SchemaFindings {
    /// The schemas could not be set up; why.
    Unavailable(Seq<char>),
    /// The document's JSON text could not be read back; the parser's message.
    Unreadable(Seq<char>),
    /// The validator's findings as (JSON pointer, message), in its order.
    Found(Seq<(Seq<char>, Seq<char>)>),
}

/// What the schema of `kind` finds in `doc`: nothing can be checked when the
/// schemas were not set up; otherwise the validator reads the document's
/// compact JSON text and reports what it finds.
pub open spec fn schema_findings(
    validators: Result<ProtocolValidators, String>,
    kind: DocumentKind,
    doc: JsonModel,
) -> SchemaFindings {
    match validators {
        Err(m) => SchemaFindings::Unavailable(m@),
        Ok(v) => {
            let text = json_text(doc);
            match json_syntax_error(text) {
                Some(e) => SchemaFindings::Unreadable(e),
                None => {
                    let (schema, context_slice, execution_provenance) = schema_texts(v.sources(), kind);
                    SchemaFindings::Found(schema_issues(schema, context_slice, execution_provenance, text))
                },
            }
        },
    }
}

/// `res` is the report on findings `issues` for a document of `kind`: none,
/// `Ok`; otherwise a validation error that names the kind and reports the
/// first ones.
pub open spec fn is_report(
    kind: DocumentKind,
    issues: Seq<(Seq<char>, Seq<char>)>,
    res: Result<(), ProtocolError>,
) -> bool {
    if issues.len() == 0 {
        res is Ok
    } else {
        res matches Err(ProtocolError::Validation { kind: k, details: d }) && k@ == kind_label(kind)
            && d@ == reported_details(issues)
    }
}

/// `res` is the verdict on a document of `kind` given `findings`: a setup
/// failure as a schema error; an unreadable document as a validation error
/// carrying the parser's message; otherwise the report on the findings.
pub open spec fn is_verdict(kind: DocumentKind, findings: SchemaFindings, res: Result<(), ProtocolError>) -> bool {
    match findings {
        SchemaFindings::Unavailable(setup) => res matches Err(ProtocolError::Schema(m)) && m@ == setup,
        SchemaFindings::Unreadable(e) => res matches Err(ProtocolError::Validation { kind: k, details: d })
            && k@ == kind_label(kind) && d@ == e,
        SchemaFindings::Found(issues) => is_report(kind, issues, res),
    }
}

/// The report on what a schema validator found in a document of `kind`: no
/// finding, `Ok`; otherwise a validation error that names the kind and lists
/// the first findings, each as its message after its path (when it has one),
/// joined by `"; "`.
pub fn report_findings(kind: DocumentKind, issues: &Vec<SchemaIssue>) -> (res: Result<(), ProtocolError>)
    ensures
        is_report(kind, issues_view(issues@), res),
{
    let ghost all = issues_view(issues@);
    if issues.len() == 0 {
        return Ok(());
    }
    let n: usize = if issues.len() < REPORTED_ISSUE_LIMIT {
        issues.len()
    } else {
        REPORTED_ISSUE_LIMIT
    };
    let ghost shown = all.take(n as int);
    let mut details = String::new();
    let mut i: usize = 0;
    assert(shown.take(0) =~= Seq::<(Seq<char>, Seq<char>)>::empty());
    while i < n
        invariant
            all == issues_view(issues@),
            all.len() == issues@.len(),
            n <= issues@.len(),
            i <= n,
            shown == all.take(n as int),
            details@ == issue_lines(shown.take(i as int)),
        decreases n - i,
    {
        let issue = &issues[i];
        if i > 0 {
            push_text(&mut details, "; ");
        }
        if issue.instance_path.as_str().is_empty() {
            push_text(&mut details, issue.message.as_str());
        } else {
            push_text(&mut details, issue.instance_path.as_str());
            push_text(&mut details, ": ");
            push_text(&mut details, issue.message.as_str());
        }
        proof {
            assert(shown[i as int] == (issue.instance_path@, issue.message@));
            assert(shown.take(i + 1).drop_last() =~= shown.take(i as int));
            assert(shown.take(i + 1).last() == shown[i as int]);
            assert(details@ =~= issue_lines(shown.take(i + 1)));
        }
        i = i + 1;
    }
    assert(shown.take(n as int) =~= shown);
    proof {
        if all.len() <= REPORTED_ISSUE_LIMIT {
            assert(shown =~= all);
        }
    }
    Err(ProtocolError::Validation { kind: kind_name(kind), details })
}

/// Checks a document of `kind` against its schema.  `validators` are the
/// protocol's schemas as set up by `build_validators`, or why they could not
/// be set up (then every document is refused with a schema error).  The
/// validator reads the document's compact JSON text; no finding gives `Ok`,
/// findings a validation error that reports the first ones.
pub fn validate(
    kind: DocumentKind,
    validators: &Result<ProtocolValidators, String>,
    document: &JsonValue,
) -> (res: Result<(), ProtocolError>)
    ensures
        is_verdict(kind, schema_findings(*validators, kind, document.model()), res),
{
    let v = match validators {
        Err(setup) => {
            return Err(ProtocolError::Schema(setup.clone()));
        },
        Ok(v) => v,
    };
    let text = match to_json_string(document) {
        Ok(text) => text,
        Err(e) => {
            return Err(ProtocolError::Serialization(e));
        },
    };
    match v.find_issues(kind, text.as_str()) {
        Ok(issues) => report_findings(kind, &issues),
        Err(e) => Err(ProtocolError::Validation { kind: kind_name(kind), details: e }),
    }
}

/// `validate` for a task packet.
pub fn validate_task_packet(
    validators: &Result<ProtocolValidators, String>,
    document: &JsonValue,
) -> (res: Result<(), ProtocolError>)
    ensures
        is_verdict(DocumentKind::TaskPacket, schema_findings(*validators, DocumentKind::TaskPacket, document.model()), res),
{
    validate(DocumentKind::TaskPacket, validators, document)
}

/// `validate` for a result envelope.
pub fn validate_result_envelope(
    validators: &Result<ProtocolValidators, String>,
    document: &JsonValue,
) -> (res: Result<(), ProtocolError>)
    ensures
        is_verdict(DocumentKind::ResultEnvelope, schema_findings(*validators, DocumentKind::ResultEnvelope, document.model()), res),
{
    validate(DocumentKind::ResultEnvelope, validators, document)
}

/// `validate` for an integration ledger.
pub fn validate_integration_ledger(
    validators: &Result<ProtocolValidators, String>,
    document: &JsonValue,
) -> (res: Result<(), ProtocolError>)
    ensures
        is_verdict(DocumentKind::IntegrationLedger, schema_findings(*validators, DocumentKind::IntegrationLedger, document.model()), res),
{
    validate(DocumentKind::IntegrationLedger, validators, document)
}

/// `validate` for an adapter manifest.
pub fn validate_adapter_manifest(
    validators: &Result<ProtocolValidators, String>,
    document: &JsonValue,
) -> (res: Result<(), ProtocolError>)
    ensures
        is_verdict(DocumentKind::AdapterManifest, schema_findings(*validators, DocumentKind::AdapterManifest, document.model()), res),
{
    validate(DocumentKind::AdapterManifest, validators, document)
}

/// Checking is a function of the schemas and the document: validators built
/// from the same schema texts give documents that are the same the same
/// verdict (both taken, or both refused with the same message), however
/// often and in whatever order the checks run.
pub proof fn law_validate_deterministic(
    kind: DocumentKind,
    v1: ProtocolValidators,
    v2: ProtocolValidators,
    doc: JsonModel,
    res1: Result<(), ProtocolError>,
    res2: Result<(), ProtocolError>,
)
    requires
        v1.sources() == v2.sources(),
        is_verdict(kind, schema_findings(Ok(v1), kind, doc), res1),
        is_verdict(kind, schema_findings(Ok(v2), kind, doc), res2),
    ensures
        res1 is Ok <==> res2 is Ok,
        res1 matches Err(e1) ==> (res2 matches Err(e2) && protocol_error_text(e1) == protocol_error_text(e2)),
{
}

/// When the schemas could not be set up, every document is refused with the
/// setup failure.
pub proof fn law_setup_failure_refuses_every_document(
    kind: DocumentKind,
    setup: String,
    doc: JsonModel,
    res: Result<(), ProtocolError>,
)
    requires
        is_verdict(kind, schema_findings(Err(setup), kind, doc), res),
    ensures
        res matches Err(e) && protocol_error_text(e) == "Protocol schema setup failed: "@ + setup@,
{
}

/// `text` is the canonical JSON of `doc`: the compact text of its canonical
/// form.
pub open spec fn is_canonical_text(text: Seq<char>, doc: JsonModel) -> bool {
    exists|c: JsonModel| #[trigger] is_canonical_form(c, doc) && text == json_text(c)
}

/// `digest` is the document digest of `doc`: the SHA-256 of the UTF-8 bytes
/// of its canonical JSON, in lower-case hexadecimal.
pub open spec fn is_document_digest(digest: Seq<char>, doc: JsonModel) -> bool {
    exists|text: Seq<char>|
        #[trigger] is_canonical_text(text, doc) && digest == lower_hex(sha256(encode_utf8(text)))
}

/// The canonical JSON text of a document: objects at every depth with their
/// keys in ascending order, no whitespace.
pub fn canonical_json(document: &JsonValue) -> (res: Result<String, ProtocolError>)
    ensures
        res matches Ok(text) && is_canonical_text(text@, document.model()),
{
    let c = canonical_value(document);
    let mut out = String::new();
    match write_json(&c, &mut out) {
        Ok(()) => {
            assert(out@ =~= json_text(c.model()));
            assert(is_canonical_form(c.model(), document.model()));
            Ok(out)
        },
        Err(m) => Err(ProtocolError::Serialization(m)),
    }
}

/// The SHA-256 of a document's canonical JSON, in lower-case hexadecimal.
pub fn document_sha256(document: &JsonValue) -> (res: Result<String, ProtocolError>)
    ensures
        res matches Ok(digest) && is_document_digest(digest@, document.model()) && digest@.len()
            == 64,
{
    let canonical = canonical_json(document)?;
    let bytes = canonical.as_str().as_bytes();
    let digest = sha256_hex(bytes);
    assert(is_canonical_text(canonical@, document.model()));
    Ok(digest)
}

/// Canonical JSON does not depend on the order of object entries: documents
/// that are the same up to that order have the same canonical JSON.
pub proof fn law_canonical_json_ignores_key_order(
    a: JsonModel,
    b: JsonModel,
    text_a: Seq<char>,
    text_b: Seq<char>,
)
    requires
        same_document(a, b),
        is_canonical_text(text_a, a),
        is_canonical_text(text_b, b),
    ensures
        text_a == text_b,
{
    let ca = choose|c: JsonModel| #[trigger] is_canonical_form(c, a) && text_a == json_text(c);
    let cb = choose|c: JsonModel| #[trigger] is_canonical_form(c, b) && text_b == json_text(c);
    law_same_document_same_canonical_form(a, b, ca, cb);
}

/// The document digest does not depend on the order of object entries.
pub proof fn law_document_digest_ignores_key_order(
    a: JsonModel,
    b: JsonModel,
    digest_a: Seq<char>,
    digest_b: Seq<char>,
)
    requires
        same_document(a, b),
        is_document_digest(digest_a, a),
        is_document_digest(digest_b, b),
    ensures
        digest_a == digest_b,
{
    let ta = choose|t: Seq<char>|
        #[trigger] is_canonical_text(t, a) && digest_a == lower_hex(sha256(encode_utf8(t)));
    let tb = choose|t: Seq<char>|
        #[trigger] is_canonical_text(t, b) && digest_b == lower_hex(sha256(encode_utf8(t)));
    law_canonical_json_ignores_key_order(a, b, ta, tb);
}

/// A document has one canonical JSON text.
pub proof fn law_canonical_json_deterministic(doc: JsonModel, t1: Seq<char>, t2: Seq<char>)
    requires
        is_canonical_text(t1, doc),
        is_canonical_text(t2, doc),
    ensures
        t1 == t2,
{
    law_same_document_reflexive(doc);
    law_canonical_json_ignores_key_order(doc, doc, t1, t2);
}

/// The canonical JSON of a document already in canonical form is its plain
/// compact text.
pub proof fn law_canonical_json_of_canonical_form(c: JsonModel, doc: JsonModel, text: Seq<char>)
    requires
        is_canonical_form(c, doc),
        is_canonical_text(text, c),
    ensures
        text == json_text(c),
{
    let c2 = choose|x: JsonModel| #[trigger] is_canonical_form(x, c) && text == json_text(x);
    law_canonical_form_idempotent(c, doc);
    law_canonical_form_unique(c, c, c2);
}

/// A protocol document describing an adapter.
#[derive(Debug)]
pub struct AdapterManifest {
    pub schema_version: u64,
    pub adapter_id: String,
    pub adapter_kind: String,
    pub display_name: String,
    pub version: String,
    pub protocol_versions: Vec<u64>,
    pub capabilities: Vec<String>,
    pub configuration: JsonValue,
    pub metadata: Option<JsonValue>,
}

} // verus!
