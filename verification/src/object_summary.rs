//! The summary of a history object shown beside its graph node: the fields
//! chosen for its kind, each reduced to one short line.
use vstd::prelude::*;

use crate::graph::{kind_name, truncate_chars, truncated, GraphNodeKind, GraphObjectDetail};
use crate::text::{concat3, dec, dec_vec, str_eq, string_of, string_views};
use crate::text::opt_view;
use crate::thread_graph::{bool_string, bool_text, copy_opt, pair_views};

verus! {

/// Longest summary line of an object field, in characters.
pub const MAX_OBJECT_DETAIL_LINE_CHARS: usize = 240;

/// A JSON value as far as its summary reads it: scalars with their text,
/// arrays and objects with their number of entries.
#[derive(Debug, Clone)]
pub enum JsonField {
    Null,
    Bool(bool),
    /// A number, by its JSON text.
    Number(String),
    String(String),
    /// An array with this many elements.
    Array(usize),
    /// An object with this many keys.
    Object(usize),
}

/// A JSON document as its summary reads it: the fields of an object, or
/// any other value.
#[derive(Debug, Clone)]
pub enum JsonDocument {
    Object(Vec<(String, JsonField)>),
    Other(JsonField),
}

/// The one-line summary of a JSON value.
pub open spec fn field_summary(f: JsonField) -> Seq<char> {
    match f {
        JsonField::Null => "null"@,
        JsonField::Bool(b) => bool_text(b),
        JsonField::Number(t) => t@,
        JsonField::String(s) => truncated(s@, MAX_OBJECT_DETAIL_LINE_CHARS as nat),
        JsonField::Array(n) => if n == 0 {
            "[]"@
        } else {
            "array["@ + dec(n as nat) + "]"@
        },
        JsonField::Object(n) => if n == 0 {
            "{}"@
        } else {
            "object{"@ + dec(n as nat) + " keys}"@
        },
    }
}

fn count_text(n: usize) -> (r: String)
    ensures
        r@ == dec(n as nat),
{
    let digits = dec_vec(n as u64);
    string_of(&digits)
}

/// The one-line summary of `value`: `null`, the boolean or number as
/// written, the string cut to `MAX_OBJECT_DETAIL_LINE_CHARS` characters,
/// or the size of an array or object.
pub fn summarize_json_value(value: &JsonField) -> (r: String)
    ensures
        r@ == field_summary(*value),
{
    match value {
        JsonField::Null => String::from_str("null"),
        JsonField::Bool(b) => bool_string(*b),
        JsonField::Number(t) => t.clone(),
        JsonField::String(s) => truncate_chars(s.as_str(), MAX_OBJECT_DETAIL_LINE_CHARS),
        JsonField::Array(n) => {
            if *n == 0 {
                String::from_str("[]")
            } else {
                let c = count_text(*n);
                concat3("array[", c.as_str(), "]")
            }
        },
        JsonField::Object(n) => {
            if *n == 0 {
                String::from_str("{}")
            } else {
                let c = count_text(*n);
                concat3("object{", c.as_str(), " keys}")
            }
        },
    }
}

/// The fields summarized for objects of `kind`, in display order.
pub open spec fn summary_keys(kind: GraphNodeKind) -> Seq<Seq<char>> {
    match kind {
        GraphNodeKind::Intent => seq![
            "object_id"@,
            "created_at"@,
            "created_by"@,
            "prompt"@,
            "parents"@,
            "spec"@,
            "analysis_context_frames"@,
        ],
        GraphNodeKind::Plan => seq![
            "object_id"@,
            "created_at"@,
            "created_by"@,
            "intent"@,
            "parents"@,
            "context_frames"@,
            "steps"@,
        ],
        GraphNodeKind::Task => seq![
            "object_id"@,
            "created_at"@,
            "created_by"@,
            "title"@,
            "description"@,
            "goal"@,
            "constraints"@,
            "acceptance_criteria"@,
            "requester"@,
            "parent"@,
            "intent"@,
            "origin_step_id"@,
            "dependencies"@,
        ],
        GraphNodeKind::Run => seq![
            "object_id"@,
            "created_at"@,
            "created_by"@,
            "task"@,
            "plan"@,
            "commit"@,
            "snapshot"@,
            "environment"@,
        ],
        GraphNodeKind::Patchset => seq![
            "object_id"@,
            "created_at"@,
            "created_by"@,
            "run"@,
            "sequence"@,
            "commit"@,
            "format"@,
            "artifact"@,
            "touched"@,
            "rationale"@,
        ],
    }
}

fn summary_keys_exec(kind: GraphNodeKind) -> (r: Vec<String>)
    ensures
        string_views(r@) == summary_keys(kind),
{
    let names: Vec<&str> = match kind {
        GraphNodeKind::Intent => vec![
            "object_id",
            "created_at",
            "created_by",
            "prompt",
            "parents",
            "spec",
            "analysis_context_frames",
        ],
        GraphNodeKind::Plan => vec![
            "object_id",
            "created_at",
            "created_by",
            "intent",
            "parents",
            "context_frames",
            "steps",
        ],
        GraphNodeKind::Task => vec![
            "object_id",
            "created_at",
            "created_by",
            "title",
            "description",
            "goal",
            "constraints",
            "acceptance_criteria",
            "requester",
            "parent",
            "intent",
            "origin_step_id",
            "dependencies",
        ],
        GraphNodeKind::Run => vec![
            "object_id",
            "created_at",
            "created_by",
            "task",
            "plan",
            "commit",
            "snapshot",
            "environment",
        ],
        GraphNodeKind::Patchset => vec![
            "object_id",
            "created_at",
            "created_by",
            "run",
            "sequence",
            "commit",
            "format",
            "artifact",
            "touched",
            "rationale",
        ],
    };
    let ghost want = summary_keys(kind);
    assert(names@.len() == want.len());
    assert(forall|i: int| 0 <= i < names@.len() ==> (#[trigger] names@[i])@ == want[i]);
    let mut out: Vec<String> = Vec::new();
    let mut i: usize = 0;
    while i < names.len()
        invariant
            i <= names@.len(),
            names@.len() == want.len(),
            forall|j: int| 0 <= j < names@.len() ==> (#[trigger] names@[j])@ == want[j],
            out@.len() == i,
            string_views(out@) == want.subrange(0, i as int),
        decreases names.len() - i,
    {
        out.push(String::from_str(names[i]));
        i += 1;
        assert(string_views(out@) =~= want.subrange(0, i as int));
    }
    assert(want.subrange(0, names.len() as int) =~= want);
    out
}

/// The value of the first field named `key`, if any.
pub open spec fn field_of(fields: Seq<(String, JsonField)>, key: Seq<char>) -> Option<JsonField>
    decreases fields.len(),
{
    if fields.len() == 0 {
        None
    } else if fields[0].0@ == key {
        Some(fields[0].1)
    } else {
        field_of(fields.drop_first(), key)
    }
}

fn copy_field(f: &JsonField) -> (r: JsonField)
    ensures
        r == *f,
{
    match f {
        JsonField::Null => JsonField::Null,
        JsonField::Bool(b) => JsonField::Bool(*b),
        JsonField::Number(t) => JsonField::Number(t.clone()),
        JsonField::String(t) => JsonField::String(t.clone()),
        JsonField::Array(n) => JsonField::Array(*n),
        JsonField::Object(n) => JsonField::Object(*n),
    }
}

pub(crate) fn field_of_exec(fields: &Vec<(String, JsonField)>, key: &str) -> (r: Option<JsonField>)
    ensures
        r == field_of(fields@, key@),
{
    let mut i: usize = 0;
    assert(fields@.subrange(0, fields@.len() as int) =~= fields@);
    while i < fields.len()
        invariant
            i <= fields@.len(),
            field_of(fields@, key@) == field_of(fields@.subrange(i as int, fields@.len() as int), key@),
        decreases fields.len() - i,
    {
        let ghost rest = fields@.subrange(i as int, fields@.len() as int);
        assert(rest[0] == fields@[i as int]);
        assert(rest.drop_first() =~= fields@.subrange(i + 1, fields@.len() as int));
        if str_eq(fields[i].0.as_str(), key) {
            return Some(copy_field(&fields[i].1));
        }
        i += 1;
    }
    None
}

/// The summaries of the fields named `keys` that `fields` has, in the
/// order of `keys`.
pub open spec fn keys_summary(keys: Seq<Seq<char>>, fields: Seq<(String, JsonField)>) -> Seq<(Seq<char>, Seq<char>)>
    decreases keys.len(),
{
    if keys.len() == 0 {
        Seq::empty()
    } else {
        let pre = keys_summary(keys.drop_last(), fields);
        match field_of(fields, keys.last()) {
            Some(f) => pre.push((keys.last(), field_summary(f))),
            None => pre,
        }
    }
}

/// The summary of an object of `kind`: its chosen fields that are present,
/// or the single line `value` when the document is not an object.
pub open spec fn object_summary(kind: GraphNodeKind, value: JsonDocument) -> Seq<(Seq<char>, Seq<char>)> {
    match value {
        JsonDocument::Object(fields) => keys_summary(summary_keys(kind), fields@),
        JsonDocument::Other(f) => seq![("value"@, field_summary(f))],
    }
}

/// The summary lines of an object of `kind`.
pub fn summarize_object_fields(kind: GraphNodeKind, value: &JsonDocument) -> (r: Vec<(String, String)>)
    ensures
        pair_views(r@) == object_summary(kind, *value),
{
    match value {
        JsonDocument::Other(f) => {
            let mut out: Vec<(String, String)> = Vec::new();
            out.push((String::from_str("value"), summarize_json_value(f)));
            assert(pair_views(out@) =~= object_summary(kind, *value));
            out
        },
        JsonDocument::Object(fields) => {
            let keys = summary_keys_exec(kind);
            let ghost kv = string_views(keys@);
            let mut out: Vec<(String, String)> = Vec::new();
            let mut i: usize = 0;
            assert(kv.subrange(0, 0) =~= Seq::<Seq<char>>::empty());
            assert(pair_views(out@) =~= keys_summary(kv.subrange(0, 0), fields@));
            while i < keys.len()
                invariant
                    i <= keys@.len(),
                    kv == string_views(keys@),
                    pair_views(out@) == keys_summary(kv.subrange(0, i as int), fields@),
                decreases keys.len() - i,
            {
                let ghost before = out@;
                assert(kv.subrange(0, i + 1).drop_last() =~= kv.subrange(0, i as int));
                assert(kv.subrange(0, i + 1).last() == keys@[i as int]@);
                match field_of_exec(fields, keys[i].as_str()) {
                    Some(f) => {
                        out.push((keys[i].clone(), summarize_json_value(&f)));
                        assert(pair_views(out@) =~= pair_views(before).push(
                            (keys@[i as int]@, field_summary(f)),
                        ));
                    },
                    None => {},
                }
                i += 1;
            }
            assert(kv.subrange(0, keys.len() as int) =~= kv);
            out
        },
    }
}

impl GraphObjectDetail {
    /// The detail of a loaded object: its kind's history type, its hash and
    /// git object type, and the summary of its JSON document.
    pub fn from_json(
        kind: GraphNodeKind,
        hash: Option<String>,
        git_object_type: Option<String>,
        value: JsonDocument,
    ) -> (r: Self)
        ensures
            r.object_type@ == kind_name(kind),
            opt_view(r.hash) == opt_view(hash),
            opt_view(r.git_object_type) == opt_view(git_object_type),
            pair_views(r.summary@) == object_summary(kind, value),
    {
        GraphObjectDetail {
            object_type: String::from_str(kind.history_type()),
            hash,
            git_object_type,
            summary: summarize_object_fields(kind, &value),
        }
    }
}

} // verus!
