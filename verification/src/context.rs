//! The submission context: who submits, for which project, from which
//! country, with which default tags and categories — and the overlay
//! that injects that identity into a generic payload tree.

use vstd::prelude::*;
use vstd::pervasive::VecAdditionalExecFns;
use crate::dates::{is_valid_date, monday_of, spec_day_number, spec_weekday_from_monday,
    today_in_model, CalendarDate};
use crate::errors::ExpendError;
use crate::json::{entry_patched, field_model_of, field_patched, lemma_field_models_of_index,
    lemma_models_of_index, model_of, models_of, overlay, tag_patched, field_models_of, JsonField,
    JsonModel, JsonValue};
use crate::locale::{Country, Destination};
use crate::strings::str_eq;

verus! {

/// A tag a transaction carries.
#[derive(Debug)]
pub struct Tag {
    pub name: String,
    pub billable: bool,
}

/// A category a transaction is booked under.
#[derive(Debug)]
pub struct Category {
    pub name: String,
}

/// The tags the tool uses when the caller names none.
#[derive(Debug)]
pub struct Tags {
    pub travel: Tag,
}

/// The categories the tool uses when the caller names none.
#[derive(Debug)]
pub struct Categories {
    pub per_diems: Category,
}

impl Default for Tags {
    /// The fixed default travel tag.
    fn default() -> (r: Self)
        ensures
            r.travel.name@ == "Travel"@,
            r.travel.billable == true,
    {
        Tags { travel: Tag { name: "Travel".to_owned(), billable: true } }
    }
}

impl Default for Categories {
    /// The fixed default per-diem category.
    fn default() -> (r: Self)
        ensures
            r.per_diems.name@ == "Per Diem/Stipend (pre-approved)"@,
    {
        Categories { per_diems: Category { name: "Per Diem/Stipend (pre-approved)".to_owned() } }
    }
}

/// The identity a submission is made under.
#[derive(Debug)]
pub struct UserContext {
    pub project: String,
    pub email: String,
    pub country: Country,
    pub destination: Option<Destination>,
    pub tags: Tags,
    pub categories: Categories,
}

impl UserContext {
    /// Applies the context overlay to a payload: an existing
    /// `"employeeEmail"` field is overwritten with the context's email,
    /// the `"tag"` fields of the entries of an array-valued
    /// `"transactionList"` field are overwritten with the context's
    /// project, and everything else — keys, order, unrelated values —
    /// is passed through unchanged.
    pub fn apply_to_value(&self, payload: JsonValue) -> (r: JsonValue)
        ensures
            model_of(r) == overlay(self.email@, self.project@, model_of(payload)),
    {
        match payload {
            JsonValue::Obj(mut fields) => {
                let ghost orig = fields@;
                let mut i: usize = 0;
                while i < fields.len()
                    invariant
                        i <= fields@.len(),
                        fields@.len() == orig.len(),
                        forall|j: int|
                            0 <= j < i ==> field_model_of(#[trigger] fields@[j]) == field_patched(
                                self.email@,
                                self.project@,
                                field_model_of(orig[j]),
                            ),
                        forall|j: int| i <= j < orig.len() ==> #[trigger] fields@[j] == orig[j],
                    decreases orig.len() - i,
                {
                    let is_email = str_eq(fields[i].key.as_str(), "employeeEmail");
                    let is_list = str_eq(fields[i].key.as_str(), "transactionList");
                    if is_email {
                        let k = fields[i].key.clone();
                        fields.set(
                            i,
                            JsonField { key: k, value: JsonValue::Str(self.email.clone()) },
                        );
                    } else if is_list {
                        let mut taken = JsonField { key: String::new(), value: JsonValue::Null };
                        fields.set_and_swap(i, &mut taken);
                        proof {
                            assert(taken == orig[i as int]);
                        }
                        let ghost t0 = field_model_of(taken);
                        let JsonField { key, value } = taken;
                        let new_value = match value {
                            JsonValue::Arr(items) => {
                                let ghost items0 = items@;
                                let patched = patch_entries(&self.project, items);
                                let arr = JsonValue::Arr(patched);
                                proof {
                                    let g = |it: JsonModel| entry_patched(self.project@, it);
                                    lemma_models_of_index(patched@);
                                    lemma_models_of_index(items0);
                                    assert forall|j: int| 0 <= j < items0.len() implies models_of(
                                        patched@,
                                    )[j] == models_of(items0).map_values(g)[j] by {
                                        assert(models_of(patched@)[j] == model_of(patched@[j]));
                                        assert(models_of(items0)[j] == model_of(items0[j]));
                                        assert(model_of(patched@[j]) == g(model_of(items0[j])));
                                    }
                                    assert(models_of(patched@) =~= models_of(items0).map_values(
                                        g,
                                    ));
                                    assert(model_of(arr)->Arr_0 =~= t0.1->Arr_0.map_values(g));
                                }
                                arr
                            },
                            other => other,
                        };
                        proof {
                            assert((key@, model_of(new_value)) == field_patched(
                                self.email@,
                                self.project@,
                                t0,
                            ));
                        }
                        fields.set(i, JsonField { key, value: new_value });
                    }
                    i = i + 1;
                }
                let r = JsonValue::Obj(fields);
                proof {
                    let f = |kv: (Seq<char>, JsonModel)| field_patched(
                        self.email@,
                        self.project@,
                        kv,
                    );
                    let fin = fields@;
                    lemma_field_models_of_index(fin);
                    lemma_field_models_of_index(orig);
                    assert forall|j: int| 0 <= j < orig.len() implies field_models_of(fin)[j]
                        == field_models_of(orig).map_values(f)[j] by {
                        assert(field_models_of(fin)[j] == field_model_of(fin[j]));
                        assert(field_models_of(orig)[j] == field_model_of(orig[j]));
                        assert(field_model_of(fin[j]) == f(field_model_of(orig[j])));
                    }
                    assert(field_models_of(fin) =~= field_models_of(orig).map_values(f));
                }
                r
            },
            other => other,
        }
    }
}

/// Overwrites the `"tag"` fields of every object entry with the project
/// string; entries of any other shape, and fields under any other key,
/// are kept.
fn patch_entries(project: &String, items: Vec<JsonValue>) -> (r: Vec<JsonValue>)
    ensures
        r@.len() == items@.len(),
        forall|j: int|
            0 <= j < items@.len() ==> model_of(#[trigger] r@[j]) == entry_patched(
                project@,
                model_of(items@[j]),
            ),
{
    let mut items = items;
    let ghost orig = items@;
    let mut i: usize = 0;
    while i < items.len()
        invariant
            i <= items@.len(),
            items@.len() == orig.len(),
            forall|j: int|
                0 <= j < i ==> model_of(#[trigger] items@[j]) == entry_patched(
                    project@,
                    model_of(orig[j]),
                ),
            forall|j: int| i <= j < orig.len() ==> #[trigger] items@[j] == orig[j],
        decreases orig.len() - i,
    {
        let mut taken = JsonValue::Null;
        items.set_and_swap(i, &mut taken);
        proof {
            assert(taken == orig[i as int]);
        }
        let ghost t0 = model_of(taken);
        let new_item = match taken {
            JsonValue::Obj(mut fs) => {
                let ghost fs_orig = fs@;
                let mut k: usize = 0;
                while k < fs.len()
                    invariant
                        k <= fs@.len(),
                        fs@.len() == fs_orig.len(),
                        forall|j: int|
                            0 <= j < k ==> field_model_of(#[trigger] fs@[j]) == tag_patched(
                                project@,
                                field_model_of(fs_orig[j]),
                            ),
                        forall|j: int| k <= j < fs_orig.len() ==> #[trigger] fs@[j] == fs_orig[j],
                    decreases fs_orig.len() - k,
                {
                    if str_eq(fs[k].key.as_str(), "tag") {
                        let key = fs[k].key.clone();
                        fs.set(
                            k,
                            JsonField { key, value: JsonValue::Str(project.clone()) },
                        );
                    }
                    k = k + 1;
                }
                let obj = JsonValue::Obj(fs);
                proof {
                    let h = |kv: (Seq<char>, JsonModel)| tag_patched(project@, kv);
                    let fin = fs@;
                    lemma_field_models_of_index(fin);
                    lemma_field_models_of_index(fs_orig);
                    assert forall|j: int| 0 <= j < fs_orig.len() implies field_models_of(fin)[j]
                        == t0->Obj_0.map_values(h)[j] by {
                        assert(field_models_of(fin)[j] == field_model_of(fin[j]));
                        assert(t0->Obj_0[j] == field_model_of(fs_orig[j]));
                        assert(field_model_of(fin[j]) == h(field_model_of(fs_orig[j])));
                    }
                    assert(field_models_of(fin) =~= t0->Obj_0.map_values(h));
                }
                obj
            },
            other => other,
        };
        proof {
            assert(model_of(new_item) == entry_patched(project@, t0));
        }
        items.set(i, new_item);
        i = i + 1;
    }
    items
}

/// One submission's context: the identity, an optional reference date
/// that overrides "today", and an optional comment.
#[derive(Debug)]
pub struct Context {
    pub user: UserContext,
    pub reference_date: Option<CalendarDate>,
    pub comment: Option<String>,
}

impl Context {
    /// The Monday of the week of the reference date — of the current
    /// UTC date when no reference date is set. Fails only when that
    /// Monday would fall outside the representable range.
    pub fn monday_of_reference_date(&self) -> (r: Result<CalendarDate, ExpendError>)
        requires
            self.reference_date matches Some(d) ==> is_valid_date(d),
        ensures
            r matches Ok(m) ==> is_valid_date(m) && spec_weekday_from_monday(m) == 0,
            self.reference_date matches Some(d) ==> {
                &&& spec_day_number(d) >= spec_weekday_from_monday(d) ==> (r matches Ok(m)
                    && spec_day_number(m) == spec_day_number(d) - spec_weekday_from_monday(d))
                &&& spec_day_number(d) < spec_weekday_from_monday(d) ==> r is Err
                &&& spec_weekday_from_monday(d) == 0 ==> (r matches Ok(m) && m == d)
            },
    {
        match &self.reference_date {
            Some(d) => monday_of(d),
            None => {
                match today_in_model() {
                    Ok(t) => monday_of(&t),
                    Err(e) => Err(e),
                }
            },
        }
    }
}

} // verus!
