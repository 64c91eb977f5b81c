use vstd::prelude::*;

use crate::error::RuntimeError;

verus! {

/// One key/value pair of a mapping-shaped structured value. Mappings are kept
/// as ordered pair lists, so a round trip through the bridge preserves the
/// order in which the caller supplied the fields.
#[derive(Debug, PartialEq)]
pub struct MapEntry {
    pub key: String,
    pub value: StructuredValue,
}

/// A JSON-shaped value as it crosses the library's boundary: mappings,
/// sequences, strings, integers, booleans and null. Numbers are unified to
/// 64-bit integers; a caller that needs fractional numbers must encode them
/// itself (for example as strings).
#[derive(Debug, PartialEq)]
pub enum StructuredValue {
    Null,
    Bool(bool),
    Int(i64),
    Str(String),
    List(Vec<StructuredValue>),
    Mapping(Vec<MapEntry>),
}

impl StructuredValue {
    /// Whether the value is mapping-shaped, the only shape that accepts
    /// injected context fields.
    pub open spec fn is_mapping(self) -> bool {
        self is Mapping
    }

    /// The pair list of a mapping-shaped value.
    pub open spec fn entries(self) -> Seq<MapEntry>
        recommends
            self.is_mapping(),
    {
        self->Mapping_0@
    }

    /// Scalars are the only shapes the bridge decodes out of a script's
    /// return value.
    pub open spec fn is_scalar(self) -> bool {
        self is Null || self is Bool || self is Int || self is Str
    }
}

/// Whether some entry of `es` has key `k`.
pub open spec fn has_key(es: Seq<MapEntry>, k: Seq<char>) -> bool {
    exists|i: int| 0 <= i < es.len() && es[i].key@ == k
}

/// Whether `sv` is the string value whose characters are `s`.
pub open spec fn is_str_value(sv: StructuredValue, s: Seq<char>) -> bool {
    sv matches StructuredValue::Str(t) && t@ == s
}

/// Exact relation between a pair list `es` and the pair list `out` obtained by
/// binding the key `k` to the string `v`: every entry whose key is `k` has its
/// value overwritten (overwrite wins), every other entry is kept unchanged in
/// place, and a key not present yet is appended at the end.
pub open spec fn injected(es: Seq<MapEntry>, k: Seq<char>, v: Seq<char>, out: Seq<MapEntry>) -> bool {
    if has_key(es, k) {
        &&& out.len() == es.len()
        &&& forall|i: int| 0 <= i < es.len() && es[i].key@ != k ==> out[i] == es[i]
        &&& forall|i: int|
            0 <= i < es.len() && es[i].key@ == k ==> out[i].key == es[i].key && is_str_value(
                out[i].value,
                v,
            )
    } else {
        &&& out.len() == es.len() + 1
        &&& forall|i: int| 0 <= i < es.len() ==> out[i] == es[i]
        &&& out[es.len() as int].key@ == k
        &&& is_str_value(out[es.len() as int].value, v)
    }
}

/// Bind `key` to the string `value` in a mapping-shaped input. This is how
/// server-controlled context reaches a script: the field is added to the
/// caller's mapping before the call, and a colliding caller-supplied field is
/// overwritten, never silently kept. Any other input shape is rejected.
pub fn inject(input: StructuredValue, key: &str, value: &str) -> (r: Result<
    StructuredValue,
    RuntimeError,
>)
    ensures
        r is Ok <==> input.is_mapping(),
        !input.is_mapping() ==> r == Err::<StructuredValue, RuntimeError>(
            RuntimeError::ValueBridgeError,
        ),
        r matches Ok(out) ==> out.is_mapping() && injected(
            input.entries(),
            key@,
            value@,
            out.entries(),
        ),
{
    let key_owned: String = key.to_owned();
    match input {
        StructuredValue::Mapping(mut entries) => {
            let ghost es0 = entries@;
            let mut found = false;
            let mut i: usize = 0;
            while i < entries.len()
                invariant
                    i <= es0.len(),
                    entries@.len() == es0.len(),
                    key_owned@ == key@,
                    !found ==> forall|j: int| 0 <= j < i ==> es0[j].key@ != key@,
                    found ==> has_key(es0, key@),
                    forall|j: int| i <= j < es0.len() ==> entries@[j] == es0[j],
                    forall|j: int| 0 <= j < i && es0[j].key@ != key@ ==> entries@[j] == es0[j],
                    forall|j: int|
                        0 <= j < i && es0[j].key@ == key@ ==> entries@[j].key == es0[j].key
                            && is_str_value(entries@[j].value, value@),
                decreases es0.len() - i,
            {
                if entries[i].key == key_owned {
                    let kept_key = entries[i].key.clone();
                    entries.set(
                        i,
                        MapEntry { key: kept_key, value: StructuredValue::Str(value.to_owned()) },
                    );
                    found = true;
                    proof {
                        assert(es0[i as int].key@ == key@);
                    }
                } else {
                    proof {
                        assert(es0[i as int].key@ != key@);
                    }
                }
                i = i + 1;
            }
            if !found {
                entries.push(
                    MapEntry { key: key_owned, value: StructuredValue::Str(value.to_owned()) },
                );
            }
            Ok(StructuredValue::Mapping(entries))
        },
        _ => Err(RuntimeError::ValueBridgeError),
    }
}

} // verus!
