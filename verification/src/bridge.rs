//! Schema bridge for the tool-call result.
//!
//! The protocol's tool-call result exists in two independently declared
//! but specification-derived type systems. The bridge goes through a
//! JSON-shaped intermediate tree: the source value is serialized into the
//! tree, the `content` field is normalized (the two schemas disagree on
//! whether it is required, so an absent or null content list becomes an
//! empty list), and the target record is read off the tree. Only the
//! serialization into the tree is trusted; the normalization and the
//! reading are verified.

use vstd::prelude::*;

verus! {

#[verifier::external_type_specification]
#[verifier::external_body]
pub struct ExJsonNumber(serde_json::Number);

/// Relies on `serde_json::Number`'s `Clone`; nothing is claimed of the
/// opaque copy.
pub assume_specification[ <serde_json::Number as Clone>::clone ](
    n: &serde_json::Number,
) -> serde_json::Number;

#[verifier::external_type_specification]
#[verifier::external_body]
pub struct ExValue(serde_json::Value);

#[verifier::external_type_specification]
#[verifier::external_body]
pub struct ExRmcpCallToolResult(rmcp::model::CallToolResult);

/// JSON-shaped intermediate tree. Numbers are carried through opaquely;
/// an object is a key-ordered list of pairs, the first pair for a key
/// being the one that counts.
#[derive(Debug, PartialEq)]
pub enum JsonTree {
    Null,
    Bool(bool),
    Number(serde_json::Number),
    Text(String),
    Array(Vec<JsonTree>),
    Object(Vec<(String, JsonTree)>),
}

/// Structural conversion failed: either the source value would not
/// serialize, or the serialized tree does not have the target's shape.
/// Both point at a real incompatibility between the two schema
/// definitions, not at a transient fault.
#[derive(Debug)]
pub enum ConversionError {
    Serialization { detail: String },
    Shape { field: String },
}

impl ConversionError {
    /// The failure named after the operation it belongs to, wrapping the
    /// serializer's own message or the offending field.
    pub fn describe(&self) -> (r: String)
        ensures
            self matches ConversionError::Serialization { detail } ==> r@
                == "failed to convert call tool result: "@ + detail@,
            self matches ConversionError::Shape { field } ==> r@
                == "failed to convert call tool result: malformed "@ + field@,
    {
        match self {
            ConversionError::Serialization { detail } => {
                let mut r: String = "failed to convert call tool result: ".to_owned();
                crate::text::append_str(&mut r, detail.as_str());
                r
            },
            ConversionError::Shape { field } => {
                let mut r: String = "failed to convert call tool result: malformed ".to_owned();
                crate::text::append_str(&mut r, field.as_str());
                r
            },
        }
    }
}

pub open spec fn content_key() -> Seq<char> {
    "content"@
}

pub open spec fn structured_content_key() -> Seq<char> {
    "structuredContent"@
}

pub open spec fn is_error_key() -> Seq<char> {
    "isError"@
}

pub open spec fn meta_key() -> Seq<char> {
    "_meta"@
}

/// The four field names the bridge reads are pairwise distinct.
proof fn lemma_distinct_keys()
    ensures
        content_key() != structured_content_key(),
        content_key() != is_error_key(),
        content_key() != meta_key(),
        structured_content_key() != is_error_key(),
        structured_content_key() != meta_key(),
        is_error_key() != meta_key(),
{
    reveal_strlit("content");
    reveal_strlit("structuredContent");
    reveal_strlit("isError");
    reveal_strlit("_meta");
    assert(content_key()[0] == 'c');
    assert(structured_content_key()[0] == 's');
    assert(is_error_key()[0] == 'i');
    assert(meta_key()[0] == '_');
}

/// What an object holds under a key: the first pair with that key counts.
pub open spec fn obj_lookup(pairs: Seq<(String, JsonTree)>, key: Seq<char>) -> Option<JsonTree>
    decreases pairs.len(),
{
    if pairs.len() == 0 {
        None
    } else if pairs.first().0@ == key {
        Some(pairs.first().1)
    } else {
        obj_lookup(pairs.drop_first(), key)
    }
}

/// The index of the first pair with the given key; the list's length when
/// there is none.
pub open spec fn key_index(pairs: Seq<(String, JsonTree)>, key: Seq<char>) -> int
    decreases pairs.len(),
{
    if pairs.len() == 0 {
        0
    } else if pairs.first().0@ == key {
        0
    } else {
        1 + key_index(pairs.drop_first(), key)
    }
}

pub proof fn lemma_key_index_props(pairs: Seq<(String, JsonTree)>, key: Seq<char>)
    ensures
        0 <= key_index(pairs, key) <= pairs.len(),
        forall|i: int| 0 <= i < key_index(pairs, key) ==> (#[trigger] pairs[i]).0@ != key,
        key_index(pairs, key) < pairs.len() ==> pairs[key_index(pairs, key)].0@ == key,
    decreases pairs.len(),
{
    if pairs.len() > 0 && pairs.first().0@ != key {
        lemma_key_index_props(pairs.drop_first(), key);
        assert forall|i: int| 0 <= i < key_index(pairs, key) implies (#[trigger] pairs[i]).0@
            != key by {
            if i > 0 {
                assert(pairs.drop_first()[i - 1] == pairs[i]);
            }
        }
    }
}

pub open spec fn is_empty_array(t: JsonTree) -> bool {
    t is Array && t->Array_0@.len() == 0
}

/// How the normalized tree relates to its input: on an object whose first
/// `content` pair is absent, a `content` pair holding an empty list is
/// appended; on one whose first `content` pair is null, that pair's value
/// becomes an empty list; everything else is left untouched.
pub open spec fn normalizes_to(t: JsonTree, r: JsonTree) -> bool {
    match t {
        JsonTree::Object(pairs) => {
            let n = key_index(pairs@, content_key());
            if n == pairs@.len() {
                &&& r is Object
                &&& r->Object_0@.len() == pairs@.len() + 1
                &&& (forall|i: int| 0 <= i < pairs@.len() ==> r->Object_0@[i] == pairs@[i])
                &&& r->Object_0@.last().0@ == content_key()
                &&& is_empty_array(r->Object_0@.last().1)
            } else if pairs@[n].1 is Null {
                &&& r is Object
                &&& r->Object_0@.len() == pairs@.len()
                &&& (forall|i: int|
                    0 <= i < pairs@.len() && i != n ==> r->Object_0@[i] == pairs@[i])
                &&& r->Object_0@[n].0 == pairs@[n].0
                &&& is_empty_array(r->Object_0@[n].1)
            } else {
                r == t
            }
        },
        _ => r == t,
    }
}

/// The index of the first pair with the given key, or the list's length.
fn find_key(pairs: &Vec<(String, JsonTree)>, key: &String) -> (n: usize)
    ensures
        n as int == key_index(pairs@, key@),
{
    let mut i: usize = 0;
    while i < pairs.len()
        invariant
            i <= pairs.len(),
            forall|t: int| 0 <= t < i ==> (#[trigger] pairs@[t]).0@ != key@,
        decreases pairs.len() - i,
    {
        if pairs[i].0 == *key {
            proof {
                lemma_key_index_props(pairs@, key@);
            }
            return i;
        }
        i = i + 1;
    }
    proof {
        lemma_key_index_props(pairs@, key@);
    }
    i
}

/// Guarantees the `content` field is present and a list: an absent or
/// null `content` becomes an empty list, anything else passes through
/// unchanged.
pub fn normalize_content(t: JsonTree) -> (r: JsonTree)
    ensures
        normalizes_to(t, r),
{
    match t {
        JsonTree::Object(mut pairs) => {
            let ghost orig = pairs@;
            let content_name: String = "content".to_owned();
            let n = find_key(&pairs, &content_name);
            proof {
                lemma_key_index_props(pairs@, content_name@);
            }
            if n == pairs.len() {
                pairs.push((content_name, JsonTree::Array(Vec::new())));
                JsonTree::Object(pairs)
            } else {
                let is_null = match &pairs[n].1 {
                    JsonTree::Null => true,
                    _ => false,
                };
                if is_null {
                    let key = pairs[n].0.clone();
                    pairs.set(n, (key, JsonTree::Array(Vec::new())));
                    JsonTree::Object(pairs)
                } else {
                    JsonTree::Object(pairs)
                }
            }
        },
        other => other,
    }
}

/// The tool-call result in the target schema's shape: a content list that
/// is never absent, and optional structured content, error flag and
/// metadata.
#[derive(Debug)]
pub struct ToolCallResult {
    pub content: Vec<JsonTree>,
    pub structured_content: Option<JsonTree>,
    pub is_error: Option<bool>,
    pub meta: Option<JsonTree>,
}

/// An explicit null stands for an absent optional field.
pub open spec fn flatten_null(looked_up: Option<JsonTree>) -> Option<JsonTree> {
    match looked_up {
        Some(v) => if v is Null {
            None
        } else {
            Some(v)
        },
        None => None,
    }
}

/// Whether the tree has the target record's shape: an object whose
/// `content` is a list and whose `isError`, when present, is a boolean or
/// null.
pub open spec fn extractable(t: JsonTree) -> bool {
    &&& t is Object
    &&& obj_lookup(t->Object_0@, content_key()) matches Some(c) && c is Array
    &&& match obj_lookup(t->Object_0@, is_error_key()) {
        Some(v) => v is Null || v is Bool,
        None => true,
    }
}

/// How the extracted record relates to the tree it was read from.
pub open spec fn extracts_to(t: JsonTree, out: ToolCallResult) -> bool {
    &&& t is Object
    &&& obj_lookup(t->Object_0@, content_key()) matches Some(c) && c is Array && out.content
        == c->Array_0
    &&& out.structured_content == flatten_null(
        obj_lookup(t->Object_0@, structured_content_key()),
    )
    &&& match obj_lookup(t->Object_0@, is_error_key()) {
        Some(v) => if v is Null {
            out.is_error is None
        } else {
            v is Bool && out.is_error == Some(v->Bool_0)
        },
        None => out.is_error is None,
    }
    &&& out.meta == flatten_null(obj_lookup(t->Object_0@, meta_key()))
}

/// Reads the target record off a tree; fails exactly when the tree does
/// not have the record's shape. Other fields of the object, such as the
/// protocol's result-type discriminator, are ignored.
pub fn tool_result_from_tree(t: JsonTree) -> (r: Result<ToolCallResult, ConversionError>)
    ensures
        r is Ok <==> extractable(t),
        r is Ok ==> extracts_to(t, r->Ok_0),
        r is Err ==> r->Err_0 is Shape,
{
    let mut pairs = match t {
        JsonTree::Object(pairs) => pairs,
        _ => {
            return Err(ConversionError::Shape { field: "content".to_owned() });
        },
    };
    let ghost orig = pairs@;
    let content_name: String = "content".to_owned();
    let structured_name: String = "structuredContent".to_owned();
    let error_name: String = "isError".to_owned();
    let meta_name: String = "_meta".to_owned();

    let mut content_acc: Option<JsonTree> = None;
    let mut structured_acc: Option<JsonTree> = None;
    let mut error_acc: Option<JsonTree> = None;
    let mut meta_acc: Option<JsonTree> = None;

    while pairs.len() > 0
        invariant
            pairs@.len() <= orig.len(),
            pairs@ == orig.take(pairs@.len() as int),
            content_name@ == content_key(),
            structured_name@ == structured_content_key(),
            error_name@ == is_error_key(),
            meta_name@ == meta_key(),
            content_acc == obj_lookup(
                orig.subrange(pairs@.len() as int, orig.len() as int),
                content_key(),
            ),
            structured_acc == obj_lookup(
                orig.subrange(pairs@.len() as int, orig.len() as int),
                structured_content_key(),
            ),
            error_acc == obj_lookup(
                orig.subrange(pairs@.len() as int, orig.len() as int),
                is_error_key(),
            ),
            meta_acc == obj_lookup(
                orig.subrange(pairs@.len() as int, orig.len() as int),
                meta_key(),
            ),
        decreases pairs.len(),
    {
        let ghost i = pairs@.len() as int;
        proof {
            lemma_distinct_keys();
            assert(orig.take(i).last() == orig[i - 1]);
            assert(orig.subrange(i - 1, orig.len() as int).first() == orig[i - 1]);
            assert(orig.subrange(i - 1, orig.len() as int).drop_first() =~= orig.subrange(
                i,
                orig.len() as int,
            ));
            assert(orig.take(i).drop_last() =~= orig.take(i - 1));
        }
        let (key, value) = match pairs.pop() {
            Some(pair) => pair,
            None => {
                return Err(ConversionError::Shape { field: "content".to_owned() });
            },
        };
        if key == content_name {
            content_acc = Some(value);
        } else if key == structured_name {
            structured_acc = Some(value);
        } else if key == error_name {
            error_acc = Some(value);
        } else if key == meta_name {
            meta_acc = Some(value);
        }
    }
    proof {
        assert(orig.subrange(0, orig.len() as int) =~= orig);
    }

    let content = match content_acc {
        Some(JsonTree::Array(items)) => items,
        _ => {
            return Err(ConversionError::Shape { field: "content".to_owned() });
        },
    };
    let is_error = match error_acc {
        None => None,
        Some(JsonTree::Null) => None,
        Some(JsonTree::Bool(b)) => Some(b),
        Some(_) => {
            return Err(ConversionError::Shape { field: "isError".to_owned() });
        },
    };
    let structured_content = match structured_acc {
        None => None,
        Some(JsonTree::Null) => None,
        Some(v) => Some(v),
    };
    let meta = match meta_acc {
        None => None,
        Some(JsonTree::Null) => None,
        Some(v) => Some(v),
    };
    Ok(ToolCallResult { content, structured_content, is_error, meta })
}

/// Relies on the arms of `serde_json::Value` only; each arm moves its
/// payload into the corresponding tree node.
#[verifier::external_body]
fn tree_of_value(v: serde_json::Value) -> JsonTree {
    match v {
        serde_json::Value::Null => JsonTree::Null,
        serde_json::Value::Bool(b) => JsonTree::Bool(b),
        serde_json::Value::Number(n) => JsonTree::Number(n),
        serde_json::Value::String(s) => JsonTree::Text(s),
        serde_json::Value::Array(items) => JsonTree::Array(
            items.into_iter().map(tree_of_value).collect(),
        ),
        serde_json::Value::Object(entries) => JsonTree::Object(
            entries.into_iter().map(|(k, w)| (k, tree_of_value(w))).collect(),
        ),
    }
}

/// The tree the source result serializes into, or nothing where the
/// serializer fails: `serde_json::to_value` and the arm-by-arm reading of
/// its output depend on the value alone.
pub uninterp spec fn rmcp_tree_of(result: rmcp::model::CallToolResult) -> Option<JsonTree>;

/// Relies on `serde_json::to_value`: serializes the source result into a
/// structural tree — exactly [`rmcp_tree_of`] of it — failing only with
/// the serializer's own error, which is reported as a serialization
/// failure.
#[verifier::external_body]
fn rmcp_result_to_tree(result: rmcp::model::CallToolResult) -> (r: Result<
    JsonTree,
    ConversionError,
>)
    ensures
        r is Ok <==> rmcp_tree_of(result) is Some,
        r is Ok ==> Some(r->Ok_0) == rmcp_tree_of(result),
        r is Err ==> r->Err_0 is Serialization,
{
    match serde_json::to_value(result) {
        Ok(v) => Ok(tree_of_value(v)),
        Err(e) => Err(ConversionError::Serialization { detail: e.to_string() }),
    }
}

/// Bridges a tool-call result from the source schema to the target shape:
/// serializes it into the intermediate tree, normalizes the `content`
/// field, and reads the target record off the tree. It succeeds exactly
/// when the serializer succeeds and the content-normalized tree has the
/// target's shape, and the record is then what that tree extracts to; a
/// failure is the serializer's, or an exact shape mismatch.
pub fn convert_call_tool_result(result: rmcp::model::CallToolResult) -> (r: Result<
    ToolCallResult,
    ConversionError,
>)
    ensures
        rmcp_tree_of(result) matches Some(t0) ==> exists|n: JsonTree|
            #[trigger] normalizes_to(t0, n) && (r is Ok <==> extractable(n)) && (r is Ok
                ==> extracts_to(n, r->Ok_0)) && (r is Err ==> r->Err_0 is Shape),
        rmcp_tree_of(result) is None ==> r is Err && r->Err_0 is Serialization,
        r is Err ==> r->Err_0 is Serialization || r->Err_0 is Shape,
{
    match rmcp_result_to_tree(result) {
        Err(e) => Err(e),
        Ok(tree) => {
            let normalized = normalize_content(tree);
            let extracted = tool_result_from_tree(normalized);
            proof {
                assert(normalizes_to(rmcp_tree_of(result)->Some_0, normalized));
            }
            extracted
        },
    }
}

/// Normalization is idempotent: normalizing an already-normalized tree
/// changes nothing, whether the `content` field was originally absent,
/// null, or already a list.
pub proof fn lemma_normalize_idempotent(t: JsonTree, r1: JsonTree, r2: JsonTree)
    requires
        normalizes_to(t, r1),
        normalizes_to(r1, r2),
    ensures
        r2 == r1,
{
    match t {
        JsonTree::Object(pairs) => {
            lemma_key_index_props(pairs@, content_key());
            let n = key_index(pairs@, content_key());
            if n == pairs@.len() {
                let q = r1->Object_0@;
                lemma_key_index_props(q, content_key());
                assert forall|i: int| 0 <= i < q.len() - 1 implies (#[trigger] q[i]).0@
                    != content_key() by {
                    assert(q[i] == pairs@[i]);
                }
                assert(key_index(q, content_key()) == q.len() - 1);
                assert(!(q[q.len() - 1].1 is Null));
            } else if pairs@[n].1 is Null {
                let q = r1->Object_0@;
                lemma_key_index_props(q, content_key());
                assert forall|i: int| 0 <= i < n implies (#[trigger] q[i]).0@ != content_key() by {
                    assert(q[i] == pairs@[i]);
                }
                assert(q[n].0@ == pairs@[n].0@);
                assert(key_index(q, content_key()) == n);
                assert(!(q[n].1 is Null));
            } else {
            }
        },
        _ => {},
    }
}

} // verus!
