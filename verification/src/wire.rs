//! Decoding property batches from the process-boundary wire form. Each wire
//! entry carries a declared type tag next to a dynamically typed value; the
//! decoder admits exactly the entries whose value matches the declared tag
//! and rejects the whole batch otherwise — mismatches are refused, never
//! coerced.

use vstd::prelude::*;

use crate::model::NativeUiPropertyValue;
use crate::model::UiError;
use crate::model::ValidationError;

verus! {

/// The declared type tag of one wire property.
#[derive(Clone, Copy, Debug, PartialEq, Eq, Structural)]
pub enum DBusUiPropertyValueType {
    Text,
    Number,
    Bool,
    Function,
}

/// A dynamically typed wire value. Numbers arrive as their raw 64-bit
/// encoding; `Other` stands for every wire shape this boundary does not
/// admit.
pub enum WireValue {
    Str(String),
    Number(u64),
    Bool(bool),
    Other,
}

/// A property batch as it crosses the process boundary: names with a
/// declared tag and a dynamically typed value each.
pub struct DBusUiPropertyContainer {
    pub properties: Vec<(String, (DBusUiPropertyValueType, WireValue))>,
}

/// The declared tag admits the value. A function-typed property carries no
/// wire value at all: only the registration matters.
pub open spec fn wire_pair_ok(t: DBusUiPropertyValueType, v: WireValue) -> bool {
    match t {
        DBusUiPropertyValueType::Text => v is Str,
        DBusUiPropertyValueType::Number => v is Number,
        DBusUiPropertyValueType::Bool => v is Bool,
        DBusUiPropertyValueType::Function => true,
    }
}

/// The decoded value of an admitted pair.
pub open spec fn wire_convert(t: DBusUiPropertyValueType, v: WireValue) -> NativeUiPropertyValue {
    match t {
        DBusUiPropertyValueType::Function => NativeUiPropertyValue::Function,
        DBusUiPropertyValueType::Text => NativeUiPropertyValue::Text(v->Str_0),
        DBusUiPropertyValueType::Number => NativeUiPropertyValue::Number(v->Number_0),
        DBusUiPropertyValueType::Bool => NativeUiPropertyValue::Bool(v->Bool_0),
    }
}

/// Decodes a wire property batch. Accepted exactly when every entry's value
/// matches its declared tag; one mismatched entry rejects the whole batch.
/// On success every entry is decoded, in order, under its wire name.
pub fn from_dbus(value: DBusUiPropertyContainer) -> (r: Result<
    Vec<(String, NativeUiPropertyValue)>,
    UiError,
>)
    ensures
        r is Ok <==> (forall|k: int|
            0 <= k < value.properties@.len() ==> wire_pair_ok(
                (#[trigger] value.properties@[k]).1.0,
                value.properties@[k].1.1,
            )),
        r == Err::<Vec<(String, NativeUiPropertyValue)>, UiError>(
            UiError::Validation(ValidationError::PropertyTypeMismatch),
        ) <==> r is Err,
        r matches Ok(out) ==> out@.len() == value.properties@.len() && forall|k: int|
            0 <= k < value.properties@.len() ==> (#[trigger] out@[k]).0
                == value.properties@[k].0 && out@[k].1 == wire_convert(
                value.properties@[k].1.0,
                value.properties@[k].1.1,
            ),
{
    let mut out: Vec<(String, NativeUiPropertyValue)> = Vec::new();
    let n = value.properties.len();
    let mut i: usize = 0;
    while i < n
        invariant
            n == value.properties@.len(),
            i <= n,
            out@.len() == i,
            forall|k: int|
                0 <= k < i ==> wire_pair_ok(
                    (#[trigger] value.properties@[k]).1.0,
                    value.properties@[k].1.1,
                ),
            forall|k: int|
                0 <= k < i ==> (#[trigger] out@[k]).0 == value.properties@[k].0 && out@[k].1
                    == wire_convert(value.properties@[k].1.0, value.properties@[k].1.1),
        decreases n - i,
    {
        let entry = &value.properties[i];
        let tag = entry.1.0;
        let decoded = match (&tag, &entry.1.1) {
            (DBusUiPropertyValueType::Text, WireValue::Str(s)) => Some(
                NativeUiPropertyValue::Text(s.clone()),
            ),
            (DBusUiPropertyValueType::Number, WireValue::Number(x)) => Some(
                NativeUiPropertyValue::Number(*x),
            ),
            (DBusUiPropertyValueType::Bool, WireValue::Bool(b)) => Some(
                NativeUiPropertyValue::Bool(*b),
            ),
            (DBusUiPropertyValueType::Function, _) => Some(NativeUiPropertyValue::Function),
            _ => None,
        };
        match decoded {
            None => {
                proof {
                    assert(!wire_pair_ok(
                        value.properties@[i as int].1.0,
                        value.properties@[i as int].1.1,
                    ));
                }
                return Err(UiError::Validation(ValidationError::PropertyTypeMismatch));
            },
            Some(d) => {
                out.push((entry.0.clone(), d));
            },
        }
        i += 1;
    }
    Ok(out)
}

} // verus!
