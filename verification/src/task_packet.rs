use vstd::prelude::*;
use vstd::string::StrSliceExecFns;
use crate::json::{field_of, i64_of, JsonModel, JsonValue};
use crate::order::{compare_text, TextOrder};
use crate::protocol::{
    document_sha256, is_document_digest, is_verdict, protocol_error_text, schema_findings,
    DocumentKind, ProtocolError, SchemaFindings,
};
use crate::schema::ProtocolValidators;
use crate::text::{integer_text, json_text, push_integer, push_text, to_json_string};

verus! {

/// The task-packet schema version this store accepts.
pub const SUPPORTED_TASK_PACKET_SCHEMA_VERSION: i64 = 1;

/// What can go wrong when storing task packets and their results.
#[derive(Debug)]
pub enum TaskPacketError {
    /// The database failed; the text is its message.
    Database(String),
    /// A document could not be written as JSON; the text says why.
    Serde(String),
    /// The document breaks the protocol.
    Protocol(ProtocolError),
    /// The document is not a usable protocol document; the text says why.
    InvalidDocument(String),
    NotFound,
    /// A packet with this `packet_id` is stored already.
    DuplicatePacketId(String),
}

/// The message of a task-packet error.
pub open spec fn task_packet_error_text(e: TaskPacketError) -> Seq<char> {
    match e {
        TaskPacketError::Database(m) => m@,
        TaskPacketError::Serde(m) => m@,
        TaskPacketError::Protocol(p) => protocol_error_text(p),
        TaskPacketError::InvalidDocument(m) => "Invalid Task Packet Protocol document: "@ + m@,
        TaskPacketError::NotFound => "Task packet not found"@,
        TaskPacketError::DuplicatePacketId(id) => "A task packet with packet_id '"@ + id@
            + "' already exists"@,
    }
}

impl TaskPacketError {
    /// The human-readable message of the error.
    pub fn message(&self) -> (res: String)
        ensures
            res@ == task_packet_error_text(*self),
    {
        match self {
            TaskPacketError::Database(m) => m.clone(),
            TaskPacketError::Serde(m) => m.clone(),
            TaskPacketError::Protocol(p) => p.message(),
            TaskPacketError::InvalidDocument(m) => {
                let mut out = String::new();
                push_text(&mut out, "Invalid Task Packet Protocol document: ");
                push_text(&mut out, m.as_str());
                out
            },
            TaskPacketError::NotFound => {
                let mut out = String::new();
                push_text(&mut out, "Task packet not found");
                out
            },
            TaskPacketError::DuplicatePacketId(id) => {
                let mut out = String::new();
                push_text(&mut out, "A task packet with packet_id '");
                push_text(&mut out, id.as_str());
                push_text(&mut out, "' already exists");
                out
            },
        }
    }
}

/// The characters with the Unicode `White_Space` property (PropList.txt).
pub open spec fn unicode_white_space(c: char) -> bool {
    let u = c as u32;
    ||| 0x09 <= u <= 0x0d
    ||| u == 0x20
    ||| u == 0x85
    ||| u == 0xa0
    ||| u == 0x1680
    ||| 0x2000 <= u <= 0x200a
    ||| u == 0x2028
    ||| u == 0x2029
    ||| u == 0x202f
    ||| u == 0x205f
    ||| u == 0x3000
}

/// Whether a character has the Unicode `White_Space` property, the test that
/// `str::trim` uses.
pub fn is_white_space(c: char) -> (res: bool)
    ensures
        res == unicode_white_space(c),
{
    let u = c as u32;
    (0x09 <= u && u <= 0x0d) || u == 0x20 || u == 0x85 || u == 0xa0 || u == 0x1680 || (0x2000
        <= u && u <= 0x200a) || u == 0x2028 || u == 0x2029 || u == 0x202f || u == 0x205f || u
        == 0x3000
}

/// A text that is empty once whitespace is trimmed.
pub open spec fn is_blank(s: Seq<char>) -> bool {
    forall|i: int| 0 <= i < s.len() ==> unicode_white_space(#[trigger] s[i])
}

fn blank(s: &str) -> (res: bool)
    ensures
        res == is_blank(s@),
{
    let n = s.unicode_len();
    let mut i: usize = 0;
    while i < n
        invariant
            n == s@.len(),
            i <= n,
            forall|k: int| 0 <= k < i ==> unicode_white_space(#[trigger] s@[k]),
        decreases n - i,
    {
        if !is_white_space(s.get_char(i)) {
            return false;
        }
        i = i + 1;
    }
    true
}

/// The member `field` of a document when it is a string that is not blank.
pub open spec fn required_text(doc: JsonModel, field: Seq<char>) -> Option<Seq<char>> {
    match field_of(doc, field) {
        Some(JsonModel::Str(s)) => if is_blank(s) {
            None
        } else {
            Some(s)
        },
        _ => None,
    }
}

/// The error for a missing or blank string member.
pub open spec fn is_missing_text_error(e: TaskPacketError, field: Seq<char>) -> bool {
    e matches TaskPacketError::InvalidDocument(m) && m@ == "'"@ + field + "' must be a non-empty string"@
}

/// The member `field`, which must be a string that is not blank.
pub fn required_string(document: &JsonValue, field: &str) -> (res: Result<String, TaskPacketError>)
    ensures
        match res {
            Ok(v) => required_text(document.model(), field@) == Some(v@),
            Err(e) => required_text(document.model(), field@) is None && is_missing_text_error(
                e,
                field@,
            ),
        },
{
    if let Some(member) = document.get(field) {
        if let Some(text) = member.as_str() {
            if !blank(text.as_str()) {
                return Ok(text.clone());
            }
        }
    }
    let mut m = String::new();
    push_text(&mut m, "'");
    push_text(&mut m, field);
    push_text(&mut m, "' must be a non-empty string");
    Err(TaskPacketError::InvalidDocument(m))
}

/// The `schema_version` member as an integer that fits `i64`.
pub open spec fn schema_version_of(doc: JsonModel) -> Option<i64> {
    match field_of(doc, "schema_version"@) {
        Some(v) => i64_of(v),
        None => None,
    }
}

/// The error that `validate_schema_version` gives a document whose version
/// is wrong.
pub open spec fn is_version_error(e: TaskPacketError, doc: JsonModel) -> bool {
    match schema_version_of(doc) {
        None => e matches TaskPacketError::InvalidDocument(m) && m@
            == "'schema_version' must be an integer"@,
        Some(v) => e matches TaskPacketError::InvalidDocument(m) && m@ == "unsupported schema_version "@
            + integer_text(v as int) + "; supported version is "@ + integer_text(
            SUPPORTED_TASK_PACKET_SCHEMA_VERSION as int,
        ),
    }
}

/// The document's `schema_version`, which must be the supported one.
pub fn validate_schema_version(document: &JsonValue) -> (res: Result<i64, TaskPacketError>)
    ensures
        match res {
            Ok(v) => schema_version_of(document.model()) == Some(v) && v
                == SUPPORTED_TASK_PACKET_SCHEMA_VERSION,
            Err(e) => schema_version_of(document.model()) != Some(
                SUPPORTED_TASK_PACKET_SCHEMA_VERSION,
            ) && is_version_error(e, document.model()),
        },
{
    let version = match document.get("schema_version") {
        Some(v) => v.as_i64(),
        None => None,
    };
    match version {
        None => {
            let mut m = String::new();
            push_text(&mut m, "'schema_version' must be an integer");
            Err(TaskPacketError::InvalidDocument(m))
        },
        Some(v) => {
            if v != SUPPORTED_TASK_PACKET_SCHEMA_VERSION {
                let mut m = String::new();
                push_text(&mut m, "unsupported schema_version ");
                push_integer(&mut m, v);
                push_text(&mut m, "; supported version is ");
                push_integer(&mut m, SUPPORTED_TASK_PACKET_SCHEMA_VERSION);
                Err(TaskPacketError::InvalidDocument(m))
            } else {
                Ok(v)
            }
        },
    }
}

/// The schema validator found nothing wrong.
pub open spec fn schema_clean(findings: SchemaFindings) -> bool {
    findings matches SchemaFindings::Found(issues) && issues.len() == 0
}

/// `res` is the error that a failed schema check gives a document of `kind`.
pub open spec fn is_schema_rejection(
    kind: DocumentKind,
    findings: SchemaFindings,
    e: TaskPacketError,
) -> bool {
    e matches TaskPacketError::Protocol(p) && is_verdict(kind, findings, Err(p))
}

/// A task packet passes every check.
pub open spec fn task_packet_accepted(doc: JsonModel, findings: SchemaFindings) -> bool {
    &&& schema_clean(findings)
    &&& schema_version_of(doc) == Some(SUPPORTED_TASK_PACKET_SCHEMA_VERSION)
    &&& required_text(doc, "packet_id"@) is Some
    &&& required_text(doc, "task_id"@) is Some
    &&& required_text(doc, "title"@) is Some
    &&& required_text(doc, "objective"@) is Some
}

/// A result envelope passes every check against the packet's ids.
pub open spec fn result_envelope_accepted(
    doc: JsonModel,
    findings: SchemaFindings,
    expected_packet_id: Seq<char>,
    expected_task_id: Seq<char>,
) -> bool {
    &&& schema_clean(findings)
    &&& schema_version_of(doc) == Some(SUPPORTED_TASK_PACKET_SCHEMA_VERSION)
    &&& required_text(doc, "packet_id"@) == Some(expected_packet_id)
    &&& required_text(doc, "task_id"@) == Some(expected_task_id)
    &&& required_text(doc, "status"@) matches Some(st) && is_result_status(st)
}

/// `res` is what checking a task packet gives: the first check that fails
/// decides the error (schema, version, then the string members `packet_id`,
/// `task_id`, `title`, `objective`); when all pass, the version, packet id
/// and task id.
pub open spec fn is_task_packet_verdict(
    doc: JsonModel,
    findings: SchemaFindings,
    res: Result<(i64, String, String), TaskPacketError>,
) -> bool {
    if !schema_clean(findings) {
        res matches Err(e) && is_schema_rejection(DocumentKind::TaskPacket, findings, e)
    } else if schema_version_of(doc) != Some(SUPPORTED_TASK_PACKET_SCHEMA_VERSION) {
        res matches Err(e) && is_version_error(e, doc)
    } else if required_text(doc, "packet_id"@) is None {
        res matches Err(e) && is_missing_text_error(e, "packet_id"@)
    } else if required_text(doc, "task_id"@) is None {
        res matches Err(e) && is_missing_text_error(e, "task_id"@)
    } else if required_text(doc, "title"@) is None {
        res matches Err(e) && is_missing_text_error(e, "title"@)
    } else if required_text(doc, "objective"@) is None {
        res matches Err(e) && is_missing_text_error(e, "objective"@)
    } else {
        res matches Ok((v, p, t)) && v == SUPPORTED_TASK_PACKET_SCHEMA_VERSION && required_text(
            doc,
            "packet_id"@,
        ) == Some(p@) && required_text(doc, "task_id"@) == Some(t@)
    }
}

fn schema_check(
    kind: DocumentKind,
    validators: &Result<ProtocolValidators, String>,
    document: &JsonValue,
) -> (res: Result<(), TaskPacketError>)
    ensures
        ({
            let findings = schema_findings(*validators, kind, document.model());
            match res {
                Ok(()) => schema_clean(findings),
                Err(e) => !schema_clean(findings) && is_schema_rejection(kind, findings, e),
            }
        }),
{
    match crate::protocol::validate(kind, validators, document) {
        Ok(()) => Ok(()),
        Err(p) => Err(TaskPacketError::Protocol(p)),
    }
}

/// Checks a task packet: its schema findings first, then its version and the
/// string members it must have.  Gives the version, packet id and task id.
pub fn validate_task_packet(
    document: &JsonValue,
    validators: &Result<ProtocolValidators, String>,
) -> (res: Result<(i64, String, String), TaskPacketError>)
    ensures
        is_task_packet_verdict(
            document.model(),
            schema_findings(*validators, DocumentKind::TaskPacket, document.model()),
            res,
        ),
{
    schema_check(DocumentKind::TaskPacket, validators, document)?;
    let version = validate_schema_version(document)?;
    let packet_id = required_string(document, "packet_id")?;
    let task_id = required_string(document, "task_id")?;
    required_string(document, "title")?;
    required_string(document, "objective")?;
    Ok((version, packet_id, task_id))
}

/// The statuses a result envelope may report.
pub open spec fn is_result_status(s: Seq<char>) -> bool {
    s == "complete"@ || s == "blocked"@ || s == "failed"@
}

/// `res` is what checking a result envelope against the packet it answers
/// gives: schema, version, the string members `packet_id`, `task_id` and
/// `status`, agreement of the ids with the packet's, then a known status;
/// when all pass, the version and the status.
pub open spec fn is_result_envelope_verdict(
    doc: JsonModel,
    findings: SchemaFindings,
    expected_packet_id: Seq<char>,
    expected_task_id: Seq<char>,
    res: Result<(i64, String), TaskPacketError>,
) -> bool {
    let packet_id = required_text(doc, "packet_id"@);
    let task_id = required_text(doc, "task_id"@);
    let status = required_text(doc, "status"@);
    if !schema_clean(findings) {
        res matches Err(e) && is_schema_rejection(DocumentKind::ResultEnvelope, findings, e)
    } else if schema_version_of(doc) != Some(SUPPORTED_TASK_PACKET_SCHEMA_VERSION) {
        res matches Err(e) && is_version_error(e, doc)
    } else if packet_id is None {
        res matches Err(e) && is_missing_text_error(e, "packet_id"@)
    } else if task_id is None {
        res matches Err(e) && is_missing_text_error(e, "task_id"@)
    } else if status is None {
        res matches Err(e) && is_missing_text_error(e, "status"@)
    } else if packet_id.unwrap() != expected_packet_id {
        res matches Err(TaskPacketError::InvalidDocument(m)) && m@ == "result packet_id '"@
            + packet_id.unwrap() + "' does not match '"@ + expected_packet_id + "'"@
    } else if task_id.unwrap() != expected_task_id {
        res matches Err(TaskPacketError::InvalidDocument(m)) && m@ == "result task_id '"@
            + task_id.unwrap() + "' does not match '"@ + expected_task_id + "'"@
    } else if !is_result_status(status.unwrap()) {
        res matches Err(TaskPacketError::InvalidDocument(m)) && m@ == "unsupported result status '"@
            + status.unwrap() + "'"@
    } else {
        res matches Ok((v, st)) && v == SUPPORTED_TASK_PACKET_SCHEMA_VERSION && st@
            == status.unwrap()
    }
}

fn same_text(a: &str, b: &str) -> (res: bool)
    ensures
        res == (a@ == b@),
{
    compare_text(a, b) == TextOrder::Equal
}

/// Checks a result envelope for the packet with `expected_packet_id` and
/// `expected_task_id`.  Gives the version and the status.
pub fn validate_result_envelope(
    document: &JsonValue,
    validators: &Result<ProtocolValidators, String>,
    expected_packet_id: &str,
    expected_task_id: &str,
) -> (res: Result<(i64, String), TaskPacketError>)
    ensures
        is_result_envelope_verdict(
            document.model(),
            schema_findings(*validators, DocumentKind::ResultEnvelope, document.model()),
            expected_packet_id@,
            expected_task_id@,
            res,
        ),
{
    schema_check(DocumentKind::ResultEnvelope, validators, document)?;
    let version = validate_schema_version(document)?;
    let packet_id = required_string(document, "packet_id")?;
    let task_id = required_string(document, "task_id")?;
    let status = required_string(document, "status")?;
    if !same_text(packet_id.as_str(), expected_packet_id) {
        let mut m = String::new();
        push_text(&mut m, "result packet_id '");
        push_text(&mut m, packet_id.as_str());
        push_text(&mut m, "' does not match '");
        push_text(&mut m, expected_packet_id);
        push_text(&mut m, "'");
        return Err(TaskPacketError::InvalidDocument(m));
    }
    if !same_text(task_id.as_str(), expected_task_id) {
        let mut m = String::new();
        push_text(&mut m, "result task_id '");
        push_text(&mut m, task_id.as_str());
        push_text(&mut m, "' does not match '");
        push_text(&mut m, expected_task_id);
        push_text(&mut m, "'");
        return Err(TaskPacketError::InvalidDocument(m));
    }
    if !(same_text(status.as_str(), "complete") || same_text(status.as_str(), "blocked")
        || same_text(status.as_str(), "failed")) {
        let mut m = String::new();
        push_text(&mut m, "unsupported result status '");
        push_text(&mut m, status.as_str());
        push_text(&mut m, "'");
        return Err(TaskPacketError::InvalidDocument(m));
    }
    Ok((version, status))
}

/// A request to store a task packet.  Ids are the 128-bit values of UUIDs.
#[derive(Debug)]
pub struct CreateTaskPacket {
    pub issue_id: Option<u128>,
    pub workspace_id: Option<u128>,
    pub execution_process_id: Option<u128>,
    pub packet: JsonValue,
}

/// A request to store the result envelope of a task packet.
#[derive(Debug)]
pub struct CreateTaskPacketResult {
    pub execution_process_id: Option<u128>,
    pub workspace_id: Option<u128>,
    pub result: JsonValue,
}

/// A stored task packet.  Times are microseconds since the Unix epoch.
#[derive(Debug)]
pub struct TaskPacket {
    pub id: u128,
    pub packet_id: String,
    pub task_id: String,
    pub issue_id: Option<u128>,
    pub workspace_id: Option<u128>,
    pub execution_process_id: Option<u128>,
    pub schema_version: i64,
    pub payload_sha256: String,
    pub packet: JsonValue,
    pub created_at: i64,
    pub updated_at: i64,
}

/// A stored result envelope.
#[derive(Debug)]
pub struct TaskPacketResult {
    pub id: u128,
    pub task_packet_id: u128,
    pub execution_process_id: Option<u128>,
    pub schema_version: i64,
    pub status: String,
    pub payload_sha256: String,
    pub result: JsonValue,
    pub created_at: i64,
    pub updated_at: i64,
}

/// How a document is stored: its JSON text and the digest of its canonical
/// JSON.
#[derive(Debug)]
pub struct StoredPayload {
    pub payload: String,
    pub payload_sha256: String,
}

/// The payload to store for a document: its compact JSON text (entries in
/// their own order) and its document digest.
pub fn stored_payload(document: &JsonValue) -> (res: Result<StoredPayload, TaskPacketError>)
    ensures
        res matches Ok(p) && p.payload@ == json_text(document.model()) && is_document_digest(
            p.payload_sha256@,
            document.model(),
        ),
{
    let payload = match to_json_string(document) {
        Ok(t) => t,
        Err(m) => {
            return Err(TaskPacketError::Serde(m));
        },
    };
    let payload_sha256 = match document_sha256(document) {
        Ok(d) => d,
        Err(e) => {
            return Err(TaskPacketError::Protocol(e));
        },
    };
    Ok(StoredPayload { payload, payload_sha256 })
}

/// A checked task packet, ready to be stored.
#[derive(Debug)]
pub struct PreparedTaskPacket {
    pub schema_version: i64,
    pub packet_id: String,
    pub task_id: String,
    pub stored: StoredPayload,
}

/// The error for a packet whose `packet_id` is stored already.
pub fn duplicate_packet_id(packet_id: String) -> (e: TaskPacketError)
    ensures
        e matches TaskPacketError::DuplicatePacketId(id) && id@ == packet_id@,
{
    TaskPacketError::DuplicatePacketId(packet_id)
}

/// What storing a task packet decides before it writes: the packet is
/// checked; a packet whose id is taken (`packet_id_taken` says, for the id
/// found, whether one is stored) is refused; otherwise its payload.
pub fn prepare_task_packet(
    request: &CreateTaskPacket,
    validators: &Result<ProtocolValidators, String>,
    packet_id_taken: bool,
) -> (res: Result<PreparedTaskPacket, TaskPacketError>)
    ensures
        match res {
            Ok(p) => !packet_id_taken && is_task_packet_verdict(
                request.packet.model(),
                schema_findings(*validators, DocumentKind::TaskPacket, request.packet.model()),
                Ok((p.schema_version, p.packet_id, p.task_id)),
            ) && p.stored.payload@ == json_text(request.packet.model()) && is_document_digest(
                p.stored.payload_sha256@,
                request.packet.model(),
            ),
            Err(e) => if !task_packet_accepted(
                request.packet.model(),
                schema_findings(*validators, DocumentKind::TaskPacket, request.packet.model()),
            ) {
                is_task_packet_verdict(
                    request.packet.model(),
                    schema_findings(*validators, DocumentKind::TaskPacket, request.packet.model()),
                    Err(e),
                )
            } else {
                packet_id_taken && (e matches TaskPacketError::DuplicatePacketId(id)
                    && required_text(request.packet.model(), "packet_id"@) == Some(id@))
            },
        },
{
    let (schema_version, packet_id, task_id) = validate_task_packet(&request.packet, validators)?;
    if packet_id_taken {
        return Err(duplicate_packet_id(packet_id));
    }
    let stored = stored_payload(&request.packet)?;
    Ok(PreparedTaskPacket { schema_version, packet_id, task_id, stored })
}

/// A checked result envelope, ready to be stored.
#[derive(Debug)]
pub struct PreparedResult {
    pub schema_version: i64,
    pub status: String,
    pub stored: StoredPayload,
}

impl TaskPacket {
    /// What storing a result for this packet decides before it writes: the
    /// envelope is checked against this packet's ids, then its payload.
    pub fn prepare_result(
        &self,
        request: &CreateTaskPacketResult,
        validators: &Result<ProtocolValidators, String>,
    ) -> (res: Result<PreparedResult, TaskPacketError>)
        ensures
            match res {
                Ok(p) => is_result_envelope_verdict(
                    request.result.model(),
                    schema_findings(*validators, DocumentKind::ResultEnvelope, request.result.model()),
                    self.packet_id@,
                    self.task_id@,
                    Ok((p.schema_version, p.status)),
                ) && p.stored.payload@ == json_text(request.result.model()) && is_document_digest(
                    p.stored.payload_sha256@,
                    request.result.model(),
                ),
                Err(e) => if !result_envelope_accepted(
                    request.result.model(),
                    schema_findings(*validators, DocumentKind::ResultEnvelope, request.result.model()),
                    self.packet_id@,
                    self.task_id@,
                ) {
                    is_result_envelope_verdict(
                        request.result.model(),
                        schema_findings(*validators, DocumentKind::ResultEnvelope, request.result.model()),
                        self.packet_id@,
                        self.task_id@,
                        Err(e),
                    )
                } else {
                    false
                },
            },
    {
        let (schema_version, status) = validate_result_envelope(
            &request.result,
            validators,
            self.packet_id.as_str(),
            self.task_id.as_str(),
        )?;
        let stored = stored_payload(&request.result)?;
        Ok(PreparedResult { schema_version, status, stored })
    }
}

/// A record read back after it was written: missing means not found.
pub fn require_found<T>(found: Option<T>) -> (res: Result<T, TaskPacketError>)
    ensures
        match found {
            Some(v) => res == Ok::<T, TaskPacketError>(v),
            None => res matches Err(TaskPacketError::NotFound),
        },
{
    match found {
        Some(v) => Ok(v),
        None => Err(TaskPacketError::NotFound),
    }
}

/// Whether the insert of a result for a packet run took place: a run takes
/// one result, so an insert that changed no row is refused.
pub fn check_result_inserted(rows_affected: u64) -> (res: Result<(), TaskPacketError>)
    ensures
        rows_affected > 0 <==> res is Ok,
        res matches Err(TaskPacketError::InvalidDocument(m)) ==> m@
            == "a result has already been submitted for this packet run"@,
        res is Err ==> res matches Err(TaskPacketError::InvalidDocument(_)),
{
    if rows_affected == 0 {
        let mut m = String::new();
        push_text(&mut m, "a result has already been submitted for this packet run");
        Err(TaskPacketError::InvalidDocument(m))
    } else {
        Ok(())
    }
}

/// A required string member is taken exactly when the member is a JSON
/// string with at least one character that is not white space; it is taken
/// as it is, untrimmed.
pub proof fn law_required_text(doc: JsonModel, field: Seq<char>, s: Seq<char>)
    ensures
        required_text(doc, field) == Some(s) <==> (field_of(doc, field) == Some(JsonModel::Str(s))
            && exists|i: int| 0 <= i < s.len() && !unicode_white_space(#[trigger] s[i])),
{
}

/// White space is exactly the Unicode `White_Space` code points: tab, line
/// feed, vertical tab, form feed, carriage return, space, next line,
/// no-break space, ogham space mark, the eleven spaces U+2000 to U+200A, line
/// and paragraph separators, narrow no-break space, medium mathematical space
/// and ideographic space.
pub proof fn law_white_space_is_unicode_white_space(c: char)
    ensures
        unicode_white_space(c) <==> set![
            0x09u32, 0x0au32, 0x0bu32, 0x0cu32, 0x0du32, 0x20u32, 0x85u32, 0xa0u32, 0x1680u32,
            0x2000u32, 0x2001u32, 0x2002u32, 0x2003u32, 0x2004u32, 0x2005u32, 0x2006u32,
            0x2007u32, 0x2008u32, 0x2009u32, 0x200au32, 0x2028u32, 0x2029u32, 0x202fu32,
            0x205fu32, 0x3000u32,
        ].contains(c as u32),
{
}

/// No ASCII letter or digit is white space, so a text holding one is not
/// blank.
pub proof fn law_letters_and_digits_are_not_blank(s: Seq<char>, i: int)
    requires
        0 <= i < s.len(),
        (0x30 <= s[i] as u32 <= 0x39) || (0x41 <= s[i] as u32 <= 0x5a) || (0x61 <= s[i] as u32
            <= 0x7a),
    ensures
        !unicode_white_space(s[i]),
        !is_blank(s),
{
}

/// A result envelope that passes the schema, version and id checks is taken
/// exactly when its status is `"complete"`, `"blocked"` or `"failed"`; the
/// status taken is the envelope's.
pub proof fn law_result_statuses(
    doc: JsonModel,
    findings: SchemaFindings,
    expected_packet_id: Seq<char>,
    expected_task_id: Seq<char>,
    status: Seq<char>,
    res: Result<(i64, String), TaskPacketError>,
)
    requires
        schema_clean(findings),
        schema_version_of(doc) == Some(SUPPORTED_TASK_PACKET_SCHEMA_VERSION),
        required_text(doc, "packet_id"@) == Some(expected_packet_id),
        required_text(doc, "task_id"@) == Some(expected_task_id),
        required_text(doc, "status"@) == Some(status),
        is_result_envelope_verdict(doc, findings, expected_packet_id, expected_task_id, res),
    ensures
        res is Ok <==> (status == "complete"@ || status == "blocked"@ || status == "failed"@),
        res matches Ok((v, st)) ==> v == SUPPORTED_TASK_PACKET_SCHEMA_VERSION && st@ == status,
{
}

/// A task packet is taken exactly when it passes every check.
pub proof fn law_task_packet_ok_iff_accepted(
    doc: JsonModel,
    findings: SchemaFindings,
    res: Result<(i64, String, String), TaskPacketError>,
)
    requires
        is_task_packet_verdict(doc, findings, res),
    ensures
        res is Ok <==> task_packet_accepted(doc, findings),
{
}

/// A document whose `schema_version` is not the supported one is refused,
/// whether it is a task packet or a result envelope.
pub proof fn law_unsupported_version_refused(
    doc: JsonModel,
    findings: SchemaFindings,
    expected_packet_id: Seq<char>,
    expected_task_id: Seq<char>,
    packet_res: Result<(i64, String, String), TaskPacketError>,
    result_res: Result<(i64, String), TaskPacketError>,
)
    requires
        schema_version_of(doc) != Some(SUPPORTED_TASK_PACKET_SCHEMA_VERSION),
        is_task_packet_verdict(doc, findings, packet_res),
        is_result_envelope_verdict(
            doc,
            findings,
            expected_packet_id,
            expected_task_id,
            result_res,
        ),
    ensures
        packet_res is Err,
        result_res is Err,
{
}

/// A result envelope is taken exactly when it passes every check; in
/// particular one whose `packet_id` or `task_id` is not the packet's is
/// refused.
pub proof fn law_result_envelope_ok_iff_accepted(
    doc: JsonModel,
    findings: SchemaFindings,
    expected_packet_id: Seq<char>,
    expected_task_id: Seq<char>,
    res: Result<(i64, String), TaskPacketError>,
)
    requires
        is_result_envelope_verdict(doc, findings, expected_packet_id, expected_task_id, res),
    ensures
        res is Ok <==> result_envelope_accepted(
            doc,
            findings,
            expected_packet_id,
            expected_task_id,
        ),
        required_text(doc, "packet_id"@) != Some(expected_packet_id) ==> res is Err,
        required_text(doc, "task_id"@) != Some(expected_task_id) ==> res is Err,
{
}

} // verus!
