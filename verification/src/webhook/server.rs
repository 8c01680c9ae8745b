//! The decisions of the mutating admission webhook for Rollouts.
use crate::text::{chars_of, join, join_chars, seqs_of, string_of};
use vstd::prelude::*;
use vstd::utf8::encode_utf8;

verus! {

#[derive(Clone, Debug, PartialEq)]
pub struct UserInfo {
    pub username: String,
    pub groups: Option<Vec<String>>,
    pub uid: Option<String>,
}

/// What the webhook reads of a Rollout object under review: the value of
/// its `surreal-dbops.reliquo.io/approved` annotation when that is a
/// string, and whether its annotations are present as an object.
#[derive(Clone, Debug, PartialEq)]
pub struct ReviewedObject {
    pub approval: Option<String>,
    pub has_annotations: bool,
}

#[derive(Clone, Debug, PartialEq)]
pub struct AdmissionRequest {
    pub uid: String,
    pub name: String,
    pub namespace: String,
    pub operation: String,
    pub user_info: UserInfo,
    pub object: Option<ReviewedObject>,
    pub old_object: Option<ReviewedObject>,
}

#[derive(Clone, Debug, PartialEq)]
pub struct AdmissionReviewRequest {
    pub api_version: String,
    pub kind: String,
    pub request: Option<AdmissionRequest>,
}

#[derive(Clone, Debug, PartialEq)]
pub struct StatusMessage {
    pub message: String,
}

/// The answer to a review. `patch` holds the base64 of the JSON patch
/// document; it is filled in by whoever serialises the operations the
/// review produced.
#[derive(Clone, Debug, PartialEq)]
pub struct AdmissionResponse {
    pub uid: String,
    pub allowed: bool,
    pub patch: Option<String>,
    pub patch_type: Option<String>,
    pub status: Option<StatusMessage>,
}

#[derive(Clone, Debug, PartialEq)]
pub struct AdmissionReviewResponse {
    pub api_version: String,
    pub kind: String,
    pub response: AdmissionResponse,
}

/// The value of a JSON patch operation.
#[derive(Clone, Debug, PartialEq)]
pub enum PatchValue {
    /// `{}`
    EmptyObject,
    Text(String),
}

/// One JSON patch operation.
#[derive(Clone, Debug, PartialEq)]
pub struct PatchOperation {
    pub op: String,
    pub path: String,
    pub value: PatchValue,
}

/// Whether a reviewed object carries the approval annotation `"true"`.
pub open spec fn approved(obj: ReviewedObject) -> bool {
    obj.approval matches Some(v) && v@ == "true"@
}

pub fn is_approved(obj: &ReviewedObject) -> (r: bool)
    ensures
        r == approved(*obj),
{
    match &obj.approval {
        Some(v) => {
            let t = "true".to_owned();
            *v == t
        },
        None => false,
    }
}

/// An `add` operation with this path and value.
pub open spec fn adds(op: PatchOperation, path: Seq<char>, value: PatchValue) -> bool {
    &&& op.op@ == "add"@
    &&& op.path@ == path
    &&& op.value == value
}

/// The patch that records an approval: the annotations object when it is
/// missing, then who approved and when.
pub open spec fn approval_patch(
    ops: Seq<PatchOperation>,
    obj: ReviewedObject,
    approver: Seq<char>,
    timestamp: Seq<char>,
) -> bool {
    let k: int = if obj.has_annotations { 0 } else { 1 };
    &&& ops.len() == k + 2
    &&& !obj.has_annotations ==> adds(ops[0], "/metadata/annotations"@, PatchValue::EmptyObject)
    &&& adds(ops[k], "/metadata/annotations/surreal-dbops.reliquo.io~1approved-by"@, ops[k].value)
    &&& ops[k].value matches PatchValue::Text(a) && a@ == approver
    &&& adds(ops[k + 1], "/metadata/annotations/surreal-dbops.reliquo.io~1approved-at"@, ops[k + 1].value)
    &&& ops[k + 1].value matches PatchValue::Text(t) && t@ == timestamp
}

/// The patch that records who approved a Rollout and when.
pub fn generate_patch(obj: &ReviewedObject, approver: &str, timestamp: &str) -> (r: Vec<PatchOperation>)
    ensures
        approval_patch(r@, *obj, approver@, timestamp@),
{
    let mut patch: Vec<PatchOperation> = Vec::new();
    if !obj.has_annotations {
        patch.push(PatchOperation {
            op: "add".to_owned(),
            path: "/metadata/annotations".to_owned(),
            value: PatchValue::EmptyObject,
        });
    }
    patch.push(PatchOperation {
        op: "add".to_owned(),
        path: "/metadata/annotations/surreal-dbops.reliquo.io~1approved-by".to_owned(),
        value: PatchValue::Text(approver.to_owned()),
    });
    patch.push(PatchOperation {
        op: "add".to_owned(),
        path: "/metadata/annotations/surreal-dbops.reliquo.io~1approved-at".to_owned(),
        value: PatchValue::Text(timestamp.to_owned()),
    });
    patch
}

// ---------------------------------------------------------------------------
// JSON text of a patch
// ---------------------------------------------------------------------------

/// A string as a JSON string literal, as `serde_json` writes it.
pub uninterp spec fn json_quoted(s: Seq<char>) -> Seq<char>;

/// Calls `serde_json::to_string` on a string slice; the text is named
/// `json_quoted` of the string. Serialising a string into the in-memory
/// buffer `to_string` writes to cannot fail, so the result is always `Ok`;
/// the error is given as its message.
#[verifier::external_body]
fn quote_json(s: &str) -> (r: Result<String, String>)
    ensures
        r is Ok,
        r matches Ok(t) ==> t@ == json_quoted(s@),
{
    serde_json::to_string(s).map_err(|e| e.to_string())
}

/// A JSON string literal.
fn json_string_of(s: &str) -> (r: Vec<char>)
    ensures
        r@ == json_quoted(s@),
{
    match quote_json(s) {
        Ok(t) => chars_of(t.as_str()),
        Err(_) => Vec::new(),
    }
}

pub open spec fn value_json(v: PatchValue) -> Seq<char> {
    match v {
        PatchValue::EmptyObject => "{}"@,
        PatchValue::Text(t) => json_quoted(t@),
    }
}

/// One operation as a JSON object, its members in the order `op`, `path`,
/// `value`.
pub open spec fn op_json(op: PatchOperation) -> Seq<char> {
    "{\"op\":"@ + json_quoted(op.op@) + ",\"path\":"@ + json_quoted(op.path@) + ",\"value\":"@
        + value_json(op.value) + "}"@
}

/// A patch as a JSON array.
pub open spec fn patch_json(ops: Seq<PatchOperation>) -> Seq<char> {
    "["@ + join(ops.map_values(|op: PatchOperation| op_json(op)), ","@) + "]"@
}

fn op_json_exec(op: &PatchOperation) -> (r: Vec<char>)
    ensures
        r@ == op_json(*op),
{
    let mut r = chars_of("{\"op\":");
    crate::text::append_chars(&mut r, json_string_of(op.op.as_str()).as_slice());
    crate::text::append_chars(&mut r, chars_of(",\"path\":").as_slice());
    crate::text::append_chars(&mut r, json_string_of(op.path.as_str()).as_slice());
    crate::text::append_chars(&mut r, chars_of(",\"value\":").as_slice());
    match &op.value {
        PatchValue::EmptyObject => crate::text::append_chars(&mut r, chars_of("{}").as_slice()),
        PatchValue::Text(t) => crate::text::append_chars(&mut r, json_string_of(t.as_str()).as_slice()),
    }
    crate::text::append_chars(&mut r, chars_of("}").as_slice());
    r
}

/// The JSON text of a patch.
pub fn patch_json_text(ops: &Vec<PatchOperation>) -> (r: String)
    ensures
        r@ == patch_json(ops@),
{
    let mut items: Vec<Vec<char>> = Vec::new();
    for i in 0..ops.len()
        invariant
            seqs_of(items@) == ops@.take(i as int).map_values(|op: PatchOperation| op_json(op)),
    {
        let ghost before = items@;
        let item = op_json_exec(&ops[i]);
        items.push(item);
        assert(seqs_of(items@) =~= seqs_of(before).push(op_json(ops@[i as int])));
        assert(ops@.take(i + 1) =~= ops@.take(i as int).push(ops@[i as int]));
        assert(seqs_of(items@) =~= ops@.take(i + 1).map_values(|op: PatchOperation| op_json(op)));
    }
    assert(ops@.take(ops@.len() as int) =~= ops@);
    let mut r = chars_of("[");
    crate::text::append_chars(&mut r, join_chars(&items, chars_of(",").as_slice()).as_slice());
    crate::text::append_chars(&mut r, chars_of("]").as_slice());
    string_of(r.as_slice())
}

/// The digit of a 6-bit group in the standard base64 alphabet.
pub open spec fn base64_digit(n: int) -> char {
    if n < 26 {
        (65 + n) as char
    } else if n < 52 {
        (71 + n) as char
    } else if n < 62 {
        (n - 4) as char
    } else if n == 62 {
        '+'
    } else {
        '/'
    }
}

/// The standard base64 encoding of some bytes, padded with `=`: each group
/// of three bytes gives four digits of six bits each, and a last group of
/// one or two bytes gives two or three digits and the padding.
pub open spec fn base64_of(data: Seq<u8>) -> Seq<char>
    decreases data.len(),
{
    if data.len() == 0 {
        Seq::empty()
    } else {
        let b0 = data[0] as int;
        let b1 = if data.len() > 1 { data[1] as int } else { 0 };
        let b2 = if data.len() > 2 { data[2] as int } else { 0 };
        let d0 = base64_digit(b0 / 4);
        let d1 = base64_digit((b0 % 4) * 16 + b1 / 16);
        let d2 = base64_digit((b1 % 16) * 4 + b2 / 64);
        let d3 = base64_digit(b2 % 64);
        if data.len() == 1 {
            seq![d0, d1, '=', '=']
        } else if data.len() == 2 {
            seq![d0, d1, d2, '=']
        } else {
            seq![d0, d1, d2, d3] + base64_of(data.skip(3))
        }
    }
}

/// Calls `Engine::encode` of `base64::engine::general_purpose::STANDARD`,
/// the standard alphabet with padding: its result is `base64_of` the bytes.
/// The length check inside cannot fail on a slice, which holds at most
/// `isize::MAX` bytes.
#[verifier::external_body]
fn base64_encode(data: &[u8]) -> (r: String)
    ensures
        r@ == base64_of(data@),
{
    base64::Engine::encode(&base64::engine::general_purpose::STANDARD, data)
}

/// Whether a review shows the approval annotation turning on: the old
/// object lacked it and the new object carries it.
pub open spec fn approval_granted(req: AdmissionRequest) -> bool {
    &&& req.object matches Some(o)
    &&& req.old_object matches Some(old)
    &&& !approved(old)
    &&& approved(o)
}

/// Reviews a change to a Rollout. Every change is allowed. A review without
/// a request is answered for uid `unknown` with the message `No request body
/// found`. When the approval annotation turns on, the answer carries a JSON
/// patch, base64-encoded, that records the requesting user and `timestamp`.
pub fn mutate_handler(payload: AdmissionReviewRequest, timestamp: &str) -> (r: AdmissionReviewResponse)
    ensures
        r.api_version == payload.api_version,
        r.kind == payload.kind,
        r.response.allowed,
        match payload.request {
            None => {
                &&& r.response.uid@ == "unknown"@
                &&& r.response.patch is None
                &&& r.response.patch_type is None
                &&& r.response.status matches Some(st) && st.message@ == "No request body found"@
            },
            Some(req) => {
                &&& r.response.uid == req.uid
                &&& r.response.status is None
                &&& if approval_granted(req) {
                    &&& r.response.patch_type matches Some(t) && t@ == "JSONPatch"@
                    &&& r.response.patch matches Some(p) && exists|ops: Seq<PatchOperation>|
                        approval_patch(ops, req.object->0, req.user_info.username@, timestamp@)
                            && p@ == base64_of(encode_utf8(#[trigger] patch_json(ops)))
                } else {
                    r.response.patch is None && r.response.patch_type is None
                }
            },
        },
{
    match payload.request {
        None => AdmissionReviewResponse {
            api_version: payload.api_version,
            kind: payload.kind,
            response: AdmissionResponse {
                uid: "unknown".to_owned(),
                allowed: true,
                patch: None,
                patch_type: None,
                status: Some(StatusMessage { message: "No request body found".to_owned() }),
            },
        },
        Some(req) => {
            let mut response = AdmissionResponse {
                uid: req.uid.clone(),
                allowed: true,
                patch: None,
                patch_type: None,
                status: None,
            };
            if let (Some(obj), Some(old_obj)) = (&req.object, &req.old_object) {
                let old_approved = is_approved(old_obj);
                let new_approved = is_approved(obj);
                if !old_approved && new_approved {
                    let ops = generate_patch(obj, req.user_info.username.as_str(), timestamp);
                    let text = patch_json_text(&ops);
                    response.patch = Some(base64_encode(text.as_str().as_bytes()));
                    response.patch_type = Some("JSONPatch".to_owned());
                }
            }
            AdmissionReviewResponse { api_version: payload.api_version, kind: payload.kind, response }
        },
    }
}

} // verus!
