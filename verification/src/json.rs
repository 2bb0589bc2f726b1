//! A generic payload tree: the JSON-like values submissions are made
//! of, their mathematical model, and the context-overlay patch operation
//! on that model.

use vstd::prelude::*;

verus! {

/// One field of a payload object.
#[derive(Debug, PartialEq, Eq)]
pub struct JsonField {
    pub key: String,
    pub value: JsonValue,
}

/// A generic JSON-like payload value.
#[derive(Debug, PartialEq, Eq)]
pub enum JsonValue {
    Null,
    Bool(bool),
    Int(i64),
    Str(String),
    Arr(Vec<JsonValue>),
    Obj(Vec<JsonField>),
}

/// The mathematical model of a payload value.
#[verifier::ext_equal]
pub enum JsonModel {
    Null,
    Bool(bool),
    Int(int),
    Str(Seq<char>),
    Arr(Seq<JsonModel>),
    Obj(Seq<(Seq<char>, JsonModel)>),
}

/// The model of a payload value.
pub open spec fn model_of(v: JsonValue) -> JsonModel
    decreases v,
{
    match v {
        JsonValue::Null => JsonModel::Null,
        JsonValue::Bool(b) => JsonModel::Bool(b),
        JsonValue::Int(i) => JsonModel::Int(i as int),
        JsonValue::Str(s) => JsonModel::Str(s@),
        JsonValue::Arr(items) => JsonModel::Arr(models_of(items@)),
        JsonValue::Obj(fields) => JsonModel::Obj(field_models_of(fields@)),
    }
}

/// The models of a sequence of payload values, in order.
pub open spec fn models_of(items: Seq<JsonValue>) -> Seq<JsonModel>
    decreases items,
{
    if items.len() == 0 {
        Seq::empty()
    } else {
        seq![model_of(items[0])] + models_of(items.subrange(1, items.len() as int))
    }
}

/// The model of one object field.
pub open spec fn field_model_of(f: JsonField) -> (Seq<char>, JsonModel)
    decreases f,
{
    (f.key@, model_of(f.value))
}

/// The models of a sequence of object fields, in order.
pub open spec fn field_models_of(fields: Seq<JsonField>) -> Seq<(Seq<char>, JsonModel)>
    decreases fields,
{
    if fields.len() == 0 {
        Seq::empty()
    } else {
        seq![field_model_of(fields[0])] + field_models_of(
            fields.subrange(1, fields.len() as int),
        )
    }
}

/// `models_of` maps the sequence pointwise.
pub proof fn lemma_models_of_index(items: Seq<JsonValue>)
    ensures
        models_of(items).len() == items.len(),
        forall|i: int|
            0 <= i < items.len() ==> models_of(items)[i] == model_of(#[trigger] items[i]),
    decreases items.len(),
{
    if items.len() > 0 {
        let tail = items.subrange(1, items.len() as int);
        lemma_models_of_index(tail);
        assert forall|i: int| 0 <= i < items.len() implies models_of(items)[i] == model_of(
            #[trigger] items[i],
        ) by {
            if i > 0 {
                assert(tail[i - 1] == items[i]);
                assert(models_of(items)[i] == models_of(tail)[i - 1]);
            }
        }
    }
}

/// `field_models_of` maps the sequence pointwise.
pub proof fn lemma_field_models_of_index(fields: Seq<JsonField>)
    ensures
        field_models_of(fields).len() == fields.len(),
        forall|i: int|
            0 <= i < fields.len() ==> field_models_of(fields)[i] == field_model_of(
                #[trigger] fields[i],
            ),
    decreases fields.len(),
{
    if fields.len() > 0 {
        let tail = fields.subrange(1, fields.len() as int);
        lemma_field_models_of_index(tail);
        assert forall|i: int| 0 <= i < fields.len() implies field_models_of(fields)[i]
            == field_model_of(#[trigger] fields[i]) by {
            if i > 0 {
                assert(tail[i - 1] == fields[i]);
                assert(field_models_of(fields)[i] == field_models_of(tail)[i - 1]);
            }
        }
    }
}

/// The patch on one field of a transaction entry: a `"tag"` field is
/// overwritten with the project string, any other field kept.
pub open spec fn tag_patched(project: Seq<char>, kv: (Seq<char>, JsonModel)) -> (
    Seq<char>,
    JsonModel,
) {
    if kv.0 == "tag"@ {
        (kv.0, JsonModel::Str(project))
    } else {
        kv
    }
}

/// The patch on one transaction entry: object entries have each of
/// their `"tag"` fields overwritten, any other entry is kept.
pub open spec fn entry_patched(project: Seq<char>, item: JsonModel) -> JsonModel {
    match item {
        JsonModel::Obj(fs) => JsonModel::Obj(fs.map_values(|kv| tag_patched(project, kv))),
        _ => item,
    }
}

/// The patch on one field of the payload: an `"employeeEmail"` field is
/// overwritten with the email string, an array-valued
/// `"transactionList"` field has its entries patched, and every other
/// field is kept.
pub open spec fn field_patched(email: Seq<char>, project: Seq<char>, kv: (Seq<char>, JsonModel)) -> (
    Seq<char>,
    JsonModel,
) {
    if kv.0 == "employeeEmail"@ {
        (kv.0, JsonModel::Str(email))
    } else if kv.0 == "transactionList"@ {
        match kv.1 {
            JsonModel::Arr(items) => (
                kv.0,
                JsonModel::Arr(items.map_values(|it| entry_patched(project, it))),
            ),
            _ => kv,
        }
    } else {
        kv
    }
}

/// The context overlay: on an object payload, each field is patched by
/// `field_patched`; any other payload is left as it is. Keys are never
/// created, removed or reordered.
pub open spec fn overlay(email: Seq<char>, project: Seq<char>, payload: JsonModel) -> JsonModel {
    match payload {
        JsonModel::Obj(fs) => JsonModel::Obj(
            fs.map_values(|kv| field_patched(email, project, kv)),
        ),
        _ => payload,
    }
}

/// The overlay is a no-op on a payload that has no `"employeeEmail"`
/// and no `"transactionList"` field: the output equals the input.
pub proof fn lemma_overlay_no_target_fields(
    email: Seq<char>,
    project: Seq<char>,
    payload: JsonModel,
)
    requires
        payload matches JsonModel::Obj(fs) ==> forall|i: int|
            0 <= i < fs.len() ==> (#[trigger] fs[i].0) != "employeeEmail"@ && fs[i].0
                != "transactionList"@,
    ensures
        overlay(email, project, payload) == payload,
{
    match payload {
        JsonModel::Obj(fs) => {
            assert(fs.map_values(|kv| field_patched(email, project, kv)) =~= fs);
        },
        _ => {},
    }
}

/// The overlay is idempotent: applying it twice with the same context
/// is the same as applying it once.
pub proof fn lemma_overlay_idempotent(email: Seq<char>, project: Seq<char>, payload: JsonModel)
    ensures
        overlay(email, project, overlay(email, project, payload)) == overlay(
            email,
            project,
            payload,
        ),
{
    match payload {
        JsonModel::Obj(fs) => {
            let f = |kv: (Seq<char>, JsonModel)| field_patched(email, project, kv);
            let once = fs.map_values(f);
            assert forall|i: int| 0 <= i < once.len() implies #[trigger] f(once[i]) == once[i] by {
                lemma_field_patch_idempotent(email, project, fs[i]);
            }
            assert(once.map_values(f) =~= once);
        },
        _ => {},
    }
}

/// Patching one payload field twice is the same as patching it once.
proof fn lemma_field_patch_idempotent(
    email: Seq<char>,
    project: Seq<char>,
    kv: (Seq<char>, JsonModel),
)
    ensures
        field_patched(email, project, field_patched(email, project, kv)) == field_patched(
            email,
            project,
            kv,
        ),
{
    if kv.0 == "employeeEmail"@ {
    } else if kv.0 == "transactionList"@ {
        match kv.1 {
            JsonModel::Arr(items) => {
                let g = |it: JsonModel| entry_patched(project, it);
                let once = items.map_values(g);
                assert forall|i: int| 0 <= i < once.len() implies #[trigger] g(once[i])
                    == once[i] by {
                    lemma_entry_patch_idempotent(project, items[i]);
                }
                assert(once.map_values(g) =~= once);
            },
            _ => {},
        }
    } else {
    }
}

/// Patching one transaction entry twice is the same as patching it
/// once.
proof fn lemma_entry_patch_idempotent(project: Seq<char>, item: JsonModel)
    ensures
        entry_patched(project, entry_patched(project, item)) == entry_patched(project, item),
{
    match item {
        JsonModel::Obj(fs) => {
            let h = |kv: (Seq<char>, JsonModel)| tag_patched(project, kv);
            let once = fs.map_values(h);
            assert(once.map_values(h) =~= once);
        },
        _ => {},
    }
}

} // verus!
