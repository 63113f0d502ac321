//! Reading the JSON template back with `serde_json`.
//!
//! The template's numbers are floating-point values and are read by the
//! caller. This module parses the text, decides the two ways a template is
//! refused, and reads each object's kind and text.
//!
//! A JSON value is opaque here, so it is described by where it sits: the
//! text it was parsed from and the path of members and elements that leads to
//! it from the top.

use vstd::prelude::*;
use serde_json::{Error, Value};
use crate::content::{pdf_shape, spec_pdf_shape, PdfShape};

verus! {

#[verifier::external_type_specification]
#[verifier::external_body]
pub struct ExJsonValue(Value);

#[verifier::external_type_specification]
#[verifier::external_body]
pub struct ExJsonError(Error);

/// One step down into a JSON value.
pub enum PathStep {
    /// The member with this name.
    Key(Seq<char>),
    /// The array element with this index.
    Index(int),
}

/// One step down into a JSON value, as the code takes it.
pub enum JsonStep {
    Key(String),
    Index(usize),
}

/// The step `s` stands for.
pub open spec fn step_view(s: JsonStep) -> PathStep {
    match s {
        JsonStep::Key(k) => PathStep::Key(k@),
        JsonStep::Index(i) => PathStep::Index(i as int),
    }
}

/// The steps `p` stands for.
pub open spec fn path_view(p: Seq<JsonStep>) -> Seq<PathStep> {
    p.map_values(|s: JsonStep| step_view(s))
}

/// Whether `serde_json::from_str::<Value>` accepts `text` as JSON.
pub uninterp spec fn json_parses(text: Seq<char>) -> bool;

/// The value reached from the value `text` parses to by following `path`
/// with `Value`'s indexing, which gives `null` for a missing member, an index
/// out of range, or a step into a value of another type.
pub uninterp spec fn json_at(text: Seq<char>, path: Seq<PathStep>) -> Value;

/// `Value::as_str` of the value at `path`: its text when it is a JSON string.
pub uninterp spec fn json_str_at(text: Seq<char>, path: Seq<PathStep>) -> Option<Seq<char>>;

/// `Value::as_array` of the value at `path`, by its length: the number of
/// elements when it is a JSON array.
pub uninterp spec fn json_array_len_at(text: Seq<char>, path: Seq<PathStep>) -> Option<nat>;

/// A JSON value together with where it sits: the text and the path.
pub struct JsonNode<'a> {
    pub text: &'a str,
    pub path: Vec<JsonStep>,
    pub value: Value,
}

/// `n.value` is the value at `n.path` in `n.text`.
pub open spec fn node_ok(n: JsonNode) -> bool {
    n.value == json_at(n.text@, path_view(n.path@))
}

/// `serde_json::from_str::<Value>`: fails exactly on text that is not JSON,
/// and otherwise gives the value at the empty path.
#[verifier::external_body]
fn parse_json(text: &str) -> (r: Result<Value, Error>)
    ensures
        r is Ok <==> json_parses(text@),
        r matches Ok(v) ==> v == json_at(text@, Seq::empty()),
{
    serde_json::from_str(text)
}

/// Indexing with a member name (`Index<&str>` for `Value`), cloned: the value
/// one `Key` step further down.
#[verifier::external_body]
fn member_value(n: &JsonNode, key: &str) -> (r: Value)
    requires
        node_ok(*n),
    ensures
        r == json_at(n.text@, path_view(n.path@).push(PathStep::Key(key@))),
{
    n.value[key].clone()
}

/// Indexing with an element index (`Index<usize>` for `Value`), cloned: the
/// value one `Index` step further down.
#[verifier::external_body]
fn element_value(n: &JsonNode, i: usize) -> (r: Value)
    requires
        node_ok(*n),
    ensures
        r == json_at(n.text@, path_view(n.path@).push(PathStep::Index(i as int))),
{
    n.value[i].clone()
}

/// `Value::as_str`, copied into a `String`.
#[verifier::external_body]
fn value_str(n: &JsonNode) -> (r: Option<String>)
    requires
        node_ok(*n),
    ensures
        match r {
            Some(s) => json_str_at(n.text@, path_view(n.path@)) == Some(s@),
            None => json_str_at(n.text@, path_view(n.path@)) is None,
        },
{
    n.value.as_str().map(|s| s.to_string())
}

/// `Value::as_array`, by its length.
#[verifier::external_body]
fn value_array_len(n: &JsonNode) -> (r: Option<usize>)
    requires
        node_ok(*n),
    ensures
        match r {
            Some(len) => json_array_len_at(n.text@, path_view(n.path@)) == Some(len as nat),
            None => json_array_len_at(n.text@, path_view(n.path@)) is None,
        },
{
    n.value.as_array().map(|a| a.len())
}

/// The node one member further down.
fn member<'a>(n: &JsonNode<'a>, key: &str) -> (r: JsonNode<'a>)
    requires
        node_ok(*n),
    ensures
        node_ok(r),
        r.text == n.text,
        path_view(r.path@) == path_view(n.path@).push(PathStep::Key(key@)),
{
    let value = member_value(n, key);
    let mut path = clone_path(&n.path);
    path.push(JsonStep::Key(key.to_owned()));
    assert(path_view(path@) =~= path_view(n.path@).push(PathStep::Key(key@)));
    JsonNode { text: n.text, path, value }
}

/// The node one element further down.
fn element<'a>(n: &JsonNode<'a>, i: usize) -> (r: JsonNode<'a>)
    requires
        node_ok(*n),
    ensures
        node_ok(r),
        r.text == n.text,
        path_view(r.path@) == path_view(n.path@).push(PathStep::Index(i as int)),
{
    let value = element_value(n, i);
    let mut path = clone_path(&n.path);
    path.push(JsonStep::Index(i));
    assert(path_view(path@) =~= path_view(n.path@).push(PathStep::Index(i as int)));
    JsonNode { text: n.text, path, value }
}

/// A copy of a path.
fn clone_path(p: &Vec<JsonStep>) -> (r: Vec<JsonStep>)
    ensures
        path_view(r@) == path_view(p@),
{
    let mut out: Vec<JsonStep> = Vec::new();
    let n = p.len();
    let mut i: usize = 0;
    while i < n
        invariant
            n == p@.len(),
            i <= n,
            path_view(out@) =~= path_view(p@.take(i as int)),
        decreases n - i,
    {
        let step = match &p[i] {
            JsonStep::Key(k) => JsonStep::Key(k.clone()),
            JsonStep::Index(j) => JsonStep::Index(*j),
        };
        out.push(step);
        assert(path_view(p@.take(i + 1)) =~= path_view(p@.take(i as int)).push(step_view(p@[i as int])));
        i = i + 1;
    }
    assert(p@.take(n as int) =~= p@);
    out
}

/// The text of the string at `path`, or the empty text when that value is
/// missing or not a string.
pub open spec fn str_or_empty(text: Seq<char>, path: Seq<PathStep>) -> Seq<char> {
    match json_str_at(text, path) {
        Some(s) => s,
        None => Seq::empty(),
    }
}

/// The text of the string at the node, or the empty text.
fn text_or_empty(n: &JsonNode) -> (r: String)
    requires
        node_ok(*n),
    ensures
        r@ == str_or_empty(n.text@, path_view(n.path@)),
{
    match value_str(n) {
        Some(s) => s,
        None => String::new(),
    }
}

/// The path to the template's object list.
pub open spec fn objects_path() -> Seq<PathStep> {
    seq![PathStep::Key("objects"@)]
}

/// The path to object `i` of the list.
pub open spec fn object_path(i: int) -> Seq<PathStep> {
    objects_path().push(PathStep::Index(i))
}

/// The path to the member `key` of object `i`.
pub open spec fn object_member_path(i: int, key: Seq<char>) -> Seq<PathStep> {
    object_path(i).push(PathStep::Key(key))
}

/// Why a template is refused.
#[derive(Debug)]
pub enum TemplateError {
    /// The text is not JSON; the parser's error is kept.
    InvalidJson(Error),
    /// The template's `objects` member is not an array.
    ObjectsNotArray,
}

/// One object of a template: its value (for its numbers), its kind name and
/// text (each empty when missing or not a string), and the shape the kind
/// names.
pub struct ReadObject {
    pub value: Value,
    pub kind: String,
    pub shape: Option<PdfShape>,
    pub text: String,
}

/// A parsed template: its whole value (for the page size) and its objects in
/// order.
pub struct ReadTemplate {
    pub value: Value,
    pub objects: Vec<ReadObject>,
}

/// Object `i` of the template `text`, as `read_template` gives it.
pub open spec fn is_read_object(o: ReadObject, text: Seq<char>, i: int) -> bool {
    &&& o.value == json_at(text, object_path(i))
    &&& o.kind@ == str_or_empty(text, object_member_path(i, "kind"@))
    &&& o.text@ == str_or_empty(text, object_member_path(i, "content"@))
    &&& o.shape == spec_pdf_shape(o.kind@)
}

/// Parses the template `json`. It is refused when it is not JSON, or when its
/// `objects` member is not an array; otherwise every element of that array
/// is read, in order, with its kind and text.
pub fn read_template(json: &str) -> (r: Result<ReadTemplate, TemplateError>)
    ensures
        r matches Err(TemplateError::InvalidJson(_)) <==> !json_parses(json@),
        r matches Err(TemplateError::ObjectsNotArray) <==> json_parses(json@)
            && json_array_len_at(json@, objects_path()) is None,
        r matches Ok(t) ==> {
            &&& json_parses(json@)
            &&& t.value == json_at(json@, Seq::empty())
            &&& json_array_len_at(json@, objects_path()) == Some(t.objects@.len())
            &&& forall|i: int| 0 <= i < t.objects@.len() ==> is_read_object(#[trigger] t.objects@[i], json@, i)
        },
{
    let root = match parse_json(json) {
        Err(e) => {
            return Err(TemplateError::InvalidJson(e));
        },
        Ok(v) => v,
    };
    let top = JsonNode { text: json, path: Vec::new(), value: root };
    assert(path_view(top.path@) =~= Seq::<PathStep>::empty());
    let list = member(&top, "objects");
    let n = match value_array_len(&list) {
        None => {
            return Err(TemplateError::ObjectsNotArray);
        },
        Some(n) => n,
    };
    let mut objects: Vec<ReadObject> = Vec::new();
    let mut i: usize = 0;
    while i < n
        invariant
            node_ok(list),
            list.text@ == json@,
            path_view(list.path@) == objects_path(),
            i <= n,
            objects@.len() == i,
            forall|j: int| 0 <= j < i ==> is_read_object(#[trigger] objects@[j], json@, j),
        decreases n - i,
    {
        let obj = element(&list, i);
        let kind = text_or_empty(&member(&obj, "kind"));
        let text = text_or_empty(&member(&obj, "content"));
        let shape = pdf_shape(kind.as_str());
        objects.push(ReadObject { value: obj.value, kind, shape, text });
        i = i + 1;
    }
    Ok(ReadTemplate { value: top.value, objects })
}

} // verus!
