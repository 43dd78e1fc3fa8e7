use vstd::prelude::*;
use crate::json::{entry_models, field_of, lemma_entry_models, lookup, models_of, lemma_models_of, JsonModel, JsonValue};
use crate::text::push_text;

verus! {

/// A tool failure as the MCP server reports it: a message and, where there
/// is one, the detail behind it.
#[derive(Debug)]
pub struct McpFailure {
    pub message: String,
    pub detail: Option<String>,
}

/// The strings of a list, as a JSON array.
pub open spec fn string_array(items: Seq<String>) -> JsonModel {
    JsonModel::Array(Seq::new(items.len(), |i: int| JsonModel::Str(items[i]@)))
}

fn strings_to_json(items: &Vec<String>) -> (res: JsonValue)
    ensures
        res.model() == string_array(items@),
{
    let mut out: Vec<JsonValue> = Vec::new();
    let mut i: usize = 0;
    while i < items.len()
        invariant
            i <= items@.len(),
            out@.len() == i,
            forall|k: int| 0 <= k < i ==> #[trigger] out@[k].model() == JsonModel::Str(items@[k]@),
        decreases items@.len() - i,
    {
        out.push(JsonValue::String(items[i].clone()));
        i = i + 1;
    }
    proof {
        lemma_models_of(out@);
        assert(models_of(out@) =~= string_array(items@)->Array_0);
    }
    JsonValue::Array(out)
}

/// The body of a request to compile an issue into a task packet:
/// `{"acceptance": …, "kind": …}`, `null` for what is not given.
pub open spec fn compile_request_model(kind: Option<String>, acceptance: Option<Vec<String>>) -> JsonModel {
    JsonModel::Object(
        seq![
            ("acceptance"@, match acceptance {
                Some(a) => string_array(a@),
                None => JsonModel::Null,
            }),
            ("kind"@, match kind {
                Some(k) => JsonModel::Str(k@),
                None => JsonModel::Null,
            }),
        ],
    )
}

/// The body of a compile request carries every acceptance check given, in
/// order, each as a JSON string (`null` when none is given), and the kind
/// as a JSON string or `null`.
pub proof fn law_compile_request_carries_every_check(kind: Option<String>, acceptance: Option<Vec<String>>)
    ensures
        match acceptance {
            Some(a) => field_of(compile_request_model(kind, acceptance), "acceptance"@) matches Some(
                JsonModel::Array(items),
            ) && items.len() == a@.len() && forall|i: int|
                0 <= i < a@.len() ==> #[trigger] items[i] == JsonModel::Str(a@[i]@),
            None => field_of(compile_request_model(kind, acceptance), "acceptance"@) == Some(
                JsonModel::Null,
            ),
        },
        match kind {
            Some(k) => field_of(compile_request_model(kind, acceptance), "kind"@) == Some(
                JsonModel::Str(k@),
            ),
            None => field_of(compile_request_model(kind, acceptance), "kind"@) == Some(JsonModel::Null),
        },
{
    reveal_strlit("acceptance");
    reveal_strlit("kind");
    assert("kind"@ != "acceptance"@) by {
        assert("kind"@.len() != "acceptance"@.len());
    }
    let entries = compile_request_model(kind, acceptance)->Object_0;
    assert(entries.last().0 == "kind"@);
    assert(entries.drop_last().last() == entries[0]);
    assert(entries[0].0 == "acceptance"@);
    assert(entries.drop_last().len() == 1);
    assert(lookup(entries.drop_last(), "acceptance"@) == Some(entries[0].1));
    assert(lookup(entries, "acceptance"@) == lookup(entries.drop_last(), "acceptance"@));
    assert(lookup(entries, "kind"@) == Some(entries[1].1));
}

/// The request body for compiling an issue into a task packet.
pub fn compile_request_payload(kind: Option<String>, acceptance: Option<Vec<String>>) -> (res: JsonValue)
    ensures
        res.model() == compile_request_model(kind, acceptance),
{
    let ghost k0 = kind;
    let ghost a0 = acceptance;
    let acceptance_value = match &acceptance {
        Some(a) => strings_to_json(a),
        None => JsonValue::Null,
    };
    let kind_value = match kind {
        Some(k) => JsonValue::String(k),
        None => JsonValue::Null,
    };
    let mut entries: Vec<(String, JsonValue)> = Vec::new();
    entries.push(("acceptance".to_owned(), acceptance_value));
    entries.push(("kind".to_owned(), kind_value));
    proof {
        lemma_entry_models(entries@);
        assert(entry_models(entries@) =~= compile_request_model(k0, a0)->Object_0);
    }
    JsonValue::Object(entries)
}

/// The body that submits a result envelope for a workspace:
/// `{"execution_process_id": null, "result": …, "workspace_id": …}`.
pub open spec fn submission_model(workspace_id: Seq<char>, result: JsonModel) -> JsonModel {
    JsonModel::Object(
        seq![
            ("execution_process_id"@, JsonModel::Null),
            ("result"@, result),
            ("workspace_id"@, JsonModel::Str(workspace_id)),
        ],
    )
}

/// The body that submits a result carries the envelope whole under
/// `result`, the workspace as a JSON string under `workspace_id`, and `null`
/// under `execution_process_id`.
pub proof fn law_submission_carries_the_result(workspace_id: Seq<char>, result: JsonModel)
    ensures
        field_of(submission_model(workspace_id, result), "result"@) == Some(result),
        field_of(submission_model(workspace_id, result), "workspace_id"@) == Some(
            JsonModel::Str(workspace_id),
        ),
        field_of(submission_model(workspace_id, result), "execution_process_id"@) == Some(
            JsonModel::Null,
        ),
{
    reveal_strlit("result");
    reveal_strlit("workspace_id");
    reveal_strlit("execution_process_id");
    let r = "result"@;
    let w = "workspace_id"@;
    let x = "execution_process_id"@;
    assert(r != w) by { assert(r.len() != w.len()); }
    assert(r != x) by { assert(r.len() != x.len()); }
    assert(w != x) by { assert(w.len() != x.len()); }
    let entries = submission_model(workspace_id, result)->Object_0;
    let e1 = entries.drop_last();
    let e0 = e1.drop_last();
    assert(e1.len() == 2 && e1.last() == entries[1]);
    assert(e0.len() == 1 && e0.last() == entries[0]);
    assert(lookup(e0, x) == Some(JsonModel::Null));
    assert(lookup(e1, x) == lookup(e0, x));
    assert(lookup(entries, x) == lookup(e1, x));
    assert(lookup(e1, r) == Some(result));
    assert(lookup(entries, r) == lookup(e1, r));
    assert(lookup(entries, w) == Some(JsonModel::Str(workspace_id)));
}

/// What submitting a result envelope decides before it sends: without a
/// workspace it is refused; an envelope that came as JSON text that would
/// not parse (`result` holds the parser's message) is refused; otherwise the
/// request body.
pub fn plan_result_submission(
    workspace_id: Option<String>,
    result: Result<JsonValue, String>,
) -> (res: Result<JsonValue, McpFailure>)
    ensures
        match workspace_id {
            None => res matches Err(f) && f.message@
                == "Task Packet result submission requires workspace context"@ && f.detail is None,
            Some(w) => match result {
                Err(detail) => res matches Err(f) && f.message@
                    == "The Result Envelope JSON string is invalid"@ && (f.detail matches Some(d)
                    && d@ == detail@),
                Ok(doc) => res matches Ok(body) && body.model() == submission_model(
                    w@,
                    doc.model(),
                ),
            },
        },
{
    let w = match workspace_id {
        Some(w) => w,
        None => {
            let mut m = String::new();
            push_text(&mut m, "Task Packet result submission requires workspace context");
            return Err(McpFailure { message: m, detail: None });
        },
    };
    let doc = match result {
        Ok(doc) => doc,
        Err(detail) => {
            let mut m = String::new();
            push_text(&mut m, "The Result Envelope JSON string is invalid");
            return Err(McpFailure { message: m, detail: Some(detail) });
        },
    };
    let ghost wm = w@;
    let ghost dm = doc.model();
    let mut entries: Vec<(String, JsonValue)> = Vec::new();
    entries.push(("execution_process_id".to_owned(), JsonValue::Null));
    entries.push(("result".to_owned(), doc));
    entries.push(("workspace_id".to_owned(), JsonValue::String(w)));
    proof {
        lemma_entry_models(entries@);
        assert(entry_models(entries@) =~= submission_model(wm, dm)->Object_0);
    }
    Ok(JsonValue::Object(entries))
}

} // verus!
