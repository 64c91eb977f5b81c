//! The value bridge: encodes a structured value into the interpreter's
//! native representation before a call, and decodes the call's result back.
//! Encoding supports the whole structured model; decoding supports exactly
//! the scalar shapes, and reports anything else as not representable.

use vstd::prelude::*;

use crate::error::RuntimeError;
use crate::lua_api::bool_value;
use crate::lua_api::int_value;
use crate::lua_api::new_string_value;
use crate::lua_api::new_table;
use crate::lua_api::nil_value;
use crate::lua_api::table_push;
use crate::lua_api::table_set;
use crate::lua_api::table_value;
use crate::value::StructuredValue;

verus! {

/// What the trusted boundary reads out of a native Lua value: one of the
/// scalar shapes as a plain value, or the report that the value has no
/// structured equivalent (a table, a callable, a float, a foreign handle).
pub enum NativeScalar {
    Nil,
    Bool(bool),
    Int(i64),
    Text(String),
    Unsupported,
}

/// Decodes a classified native result into a structured value. This is the
/// exact, verified half of the decoding direction: for each scalar shape the
/// result is pinned down, and an unsupported shape is rejected as not
/// representable.
pub fn scalar_to_structured(s: NativeScalar) -> (r: Result<StructuredValue, RuntimeError>)
    ensures
        (match s {
            NativeScalar::Nil => r == Ok::<StructuredValue, RuntimeError>(StructuredValue::Null),
            NativeScalar::Bool(b) => r == Ok::<StructuredValue, RuntimeError>(
                StructuredValue::Bool(b),
            ),
            NativeScalar::Int(i) => r == Ok::<StructuredValue, RuntimeError>(
                StructuredValue::Int(i),
            ),
            NativeScalar::Text(t) => r == Ok::<StructuredValue, RuntimeError>(
                StructuredValue::Str(t),
            ),
            NativeScalar::Unsupported => r == Err::<StructuredValue, RuntimeError>(
                RuntimeError::ValueBridgeError,
            ),
        }),
{
    match s {
        NativeScalar::Nil => Ok(StructuredValue::Null),
        NativeScalar::Bool(b) => Ok(StructuredValue::Bool(b)),
        NativeScalar::Int(i) => Ok(StructuredValue::Int(i)),
        NativeScalar::Text(t) => Ok(StructuredValue::Str(t)),
        NativeScalar::Unsupported => Err(RuntimeError::ValueBridgeError),
    }
}

/// Encodes a structured value into the interpreter's native representation:
/// mappings become tables keyed by their field names, sequences become
/// tables with consecutive integer keys, scalars map directly. Every
/// structured value is representable, so the only failures are the
/// interpreter's own (an allocation refused), reported as a bridge error.
pub(crate) fn to_native(lua: &mlua::Lua, v: &StructuredValue) -> (r: Result<
    mlua::Value,
    RuntimeError,
>)
    ensures
        r is Err ==> r == Err::<mlua::Value, RuntimeError>(RuntimeError::ValueBridgeError),
        (*v is Null || *v is Bool || *v is Int) ==> r is Ok,
    decreases *v,
{
    match v {
        StructuredValue::Null => Ok(nil_value()),
        StructuredValue::Bool(b) => Ok(bool_value(*b)),
        StructuredValue::Int(i) => Ok(int_value(*i)),
        StructuredValue::Str(s) => match new_string_value(lua, s.as_str()) {
            Ok(nv) => Ok(nv),
            Err(_) => Err(RuntimeError::ValueBridgeError),
        },
        StructuredValue::List(items) => {
            let t = match new_table(lua) {
                Ok(t) => t,
                Err(_) => {
                    return Err(RuntimeError::ValueBridgeError);
                },
            };
            let mut i: usize = 0;
            while i < items.len()
                invariant
                    i <= items@.len(),
                    *v == StructuredValue::List(*items),
                decreases items@.len() - i,
            {
                proof {
                    assert(decreases_to!(*v => v->List_0));
                    assert(v->List_0 == *items);
                    assert(decreases_to!(*items => items[i as int]));
                }
                let nv = match to_native(lua, &items[i]) {
                    Ok(nv) => nv,
                    Err(e) => {
                        return Err(e);
                    },
                };
                match table_push(&t, nv) {
                    Ok(u) => u,
                    Err(_) => {
                        return Err(RuntimeError::ValueBridgeError);
                    },
                };
                i = i + 1;
            }
            Ok(table_value(t))
        },
        StructuredValue::Mapping(entries) => {
            let t = match new_table(lua) {
                Ok(t) => t,
                Err(_) => {
                    return Err(RuntimeError::ValueBridgeError);
                },
            };
            let mut i: usize = 0;
            while i < entries.len()
                invariant
                    i <= entries@.len(),
                    *v == StructuredValue::Mapping(*entries),
                decreases entries@.len() - i,
            {
                proof {
                    assert(decreases_to!(*v => v->Mapping_0));
                    assert(v->Mapping_0 == *entries);
                    assert(decreases_to!(*entries => entries[i as int]));
                    assert(decreases_to!(entries[i as int] => entries[i as int].value));
                }
                let nv = match to_native(lua, &entries[i].value) {
                    Ok(nv) => nv,
                    Err(e) => {
                        return Err(e);
                    },
                };
                match table_set(&t, entries[i].key.as_str(), nv) {
                    Ok(u) => u,
                    Err(_) => {
                        return Err(RuntimeError::ValueBridgeError);
                    },
                };
                i = i + 1;
            }
            Ok(table_value(t))
        },
    }
}

} // verus!
