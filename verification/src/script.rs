//! The script bridge: coercion of loosely-typed script-engine records into
//! validated construction data.
//!
//! The coercion is pure and side-effect-free; persistence happens only
//! afterward, through the insert pipeline. Required fields that are absent or
//! shaped incorrectly are a [`Error::Validation`] failure — never silently
//! defaulted.

use vstd::prelude::*;
use crate::email::NewEmail;
use crate::errors::Error;
use crate::errors::ValidationKind;

verus! {

/// A loosely-typed value handed over by the scripting engine.
#[derive(Debug, PartialEq)]
pub enum ScriptValue {
    Null,
    Bool(bool),
    Int(i64),
    Text(String),
}

/// A loosely-typed record handed over by the scripting engine: field names
/// with values, in the order the script produced them.
#[derive(Debug, PartialEq)]
pub struct ScriptRecord {
    pub fields: Vec<(String, ScriptValue)>,
}

impl Clone for ScriptValue {
    fn clone(&self) -> (r: Self)
        ensures
            r == *self,
    {
        match self {
            ScriptValue::Null => ScriptValue::Null,
            ScriptValue::Bool(b) => ScriptValue::Bool(*b),
            ScriptValue::Int(n) => ScriptValue::Int(*n),
            ScriptValue::Text(s) => ScriptValue::Text(s.clone()),
        }
    }
}

/// The value under the first occurrence of the given field name, if any.
pub open spec fn lookup_field(fields: Seq<(String, ScriptValue)>, name: Seq<char>) -> Option<
    ScriptValue,
>
    decreases fields.len(),
{
    if fields.len() == 0 {
        None
    } else if fields[0].0@ == name {
        Some(fields[0].1)
    } else {
        lookup_field(fields.drop_first(), name)
    }
}

/// The natural key a well-shaped record supplies: the text under the field,
/// or nothing where the field is absent or not text.
pub open spec fn text_field(v: Option<ScriptValue>) -> Option<Seq<char>> {
    match v {
        Some(ScriptValue::Text(s)) => Some(s@),
        _ => None,
    }
}

/// The optional attribute a well-shaped record supplies: an absent field or a
/// null is an unset attribute, a boolean is the attribute, and anything else
/// is ill-shaped (the outer `None`).
pub open spec fn bool_field(v: Option<ScriptValue>) -> Option<Option<bool>> {
    match v {
        None => Some(None),
        Some(ScriptValue::Null) => Some(None),
        Some(ScriptValue::Bool(b)) => Some(Some(b)),
        _ => None,
    }
}

/// A found field sits at the first index carrying the name.
proof fn lemma_lookup_field_at(fields: Seq<(String, ScriptValue)>, name: Seq<char>, i: int)
    requires
        0 <= i < fields.len(),
        fields[i].0@ == name,
        forall|k: int| 0 <= k < i ==> (#[trigger] fields[k]).0@ != name,
    ensures
        lookup_field(fields, name) == Some(fields[i].1),
    decreases i,
{
    if i > 0 {
        assert(forall|k: int| 0 <= k < i - 1 ==> fields.drop_first()[k] == fields[k + 1]);
        lemma_lookup_field_at(fields.drop_first(), name, i - 1);
    }
}

/// Where no field carries the name, the lookup is empty.
proof fn lemma_lookup_field_none(fields: Seq<(String, ScriptValue)>, name: Seq<char>)
    requires
        forall|k: int| 0 <= k < fields.len() ==> (#[trigger] fields[k]).0@ != name,
    ensures
        lookup_field(fields, name) is None,
    decreases fields.len(),
{
    if fields.len() > 0 {
        assert(forall|k: int|
            0 <= k < fields.len() - 1 ==> fields.drop_first()[k] == fields[k + 1]);
        lemma_lookup_field_none(fields.drop_first(), name);
    }
}

/// The value under the first occurrence of the given field name, if any.
fn lookup_value(record: &ScriptRecord, name: &str) -> (r: Option<ScriptValue>)
    ensures
        r == lookup_field(record.fields@, name@),
{
    let key: String = name.to_owned();
    let n = record.fields.len();
    let mut i: usize = 0;
    while i < n
        invariant
            n == record.fields.len(),
            0 <= i <= n,
            key@ == name@,
            forall|k: int| 0 <= k < i ==> (#[trigger] record.fields@[k]).0@ != name@,
        decreases n - i,
    {
        if record.fields[i].0.eq(&key) {
            proof {
                lemma_lookup_field_at(record.fields@, name@, i as int);
            }
            return Some(record.fields[i].1.clone());
        }
        i = i + 1;
    }
    proof {
        lemma_lookup_field_none(record.fields@, name@);
    }
    None
}

impl ScriptRecord {
    /// Coerces the record into a construction record for the insert pipeline.
    /// The `value` field is required and must be text; the `valid` field is
    /// optional and must be a boolean where present (a null counts as
    /// absent). The coercion is pure: nothing is persisted here.
    pub fn try_into_new(&self) -> (r: Result<NewEmail, Error>)
        ensures
            ({
                let fv = lookup_field(self.fields@, "value"@);
                let fd = lookup_field(self.fields@, "valid"@);
                match r {
                    Ok(n) => text_field(fv) == Some(n.value@) && bool_field(fd) == Some(n.valid),
                    Err(e) => match e {
                        Error::Validation(ValidationKind::MissingField(f)) => f@ == "value"@
                            && fv is None,
                        Error::Validation(ValidationKind::TypeMismatch(f)) => (f@ == "value"@
                            && fv is Some && text_field(fv) is None) || (f@ == "valid"@
                            && text_field(fv) is Some && bool_field(fd) is None),
                        _ => false,
                    },
                }
            }),
    {
        let value = match lookup_value(self, "value") {
            Option::None => {
                return Err(Error::Validation(ValidationKind::MissingField("value".to_owned())));
            },
            Option::Some(ScriptValue::Text(s)) => s,
            Option::Some(_) => {
                return Err(Error::Validation(ValidationKind::TypeMismatch("value".to_owned())));
            },
        };
        let valid = match lookup_value(self, "valid") {
            Option::None => Option::None,
            Option::Some(ScriptValue::Null) => Option::None,
            Option::Some(ScriptValue::Bool(b)) => Option::Some(b),
            Option::Some(_) => {
                return Err(Error::Validation(ValidationKind::TypeMismatch("valid".to_owned())));
            },
        };
        Ok(NewEmail { value, valid })
    }
}

/// The construction record under the name the script bridge hands out.
pub type InsertEmail = NewEmail;

} // verus!
