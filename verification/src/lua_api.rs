//! The trusted boundary around the embedded Lua interpreter (the `mlua`
//! crate). Each wrapper holds exactly one outside call; the logic that
//! decides what to do with the outcome lives in verified code. Nothing is
//! promised of the interpreter's results beyond what its source shows: a
//! script may compute anything, so the callers state what holds of every
//! outcome.

use vstd::prelude::*;

verus! {

/// The interpreter state of the `mlua` crate, opaque to the verifier.
#[verifier::external_type_specification]
#[verifier::external_body]
pub struct ExLua(mlua::Lua);

/// A native Lua value of the `mlua` crate, opaque to the verifier.
#[verifier::external_type_specification]
#[verifier::external_body]
pub struct ExLuaValue(mlua::Value);

/// A handle to a native Lua table of the `mlua` crate, opaque to the verifier.
#[verifier::external_type_specification]
#[verifier::external_body]
pub struct ExLuaTable(mlua::Table);

/// A handle to a native Lua callable of the `mlua` crate, opaque to the verifier.
#[verifier::external_type_specification]
#[verifier::external_body]
pub struct ExLuaFunction(mlua::Function);

/// The error type of the `mlua` crate, opaque to the verifier. Verified code
/// never reads it; it is mapped to `RuntimeError` at the boundary.
#[verifier::external_type_specification]
#[verifier::external_body]
pub struct ExLuaError(mlua::Error);

/// Relies on `mlua::Lua::new`: creates a fresh interpreter state.
#[verifier::external_body]
pub(crate) fn lua_new() -> mlua::Lua {
    mlua::Lua::new()
}

/// Relies on `mlua::Lua::load` and `mlua::Chunk::eval`: compiles the script
/// text and runs it, handing back the value the chunk produced, or the
/// interpreter's error when the text does not compile or the chunk raises.
#[verifier::external_body]
pub(crate) fn eval_chunk(lua: &mlua::Lua, src: &str) -> Result<mlua::Value, mlua::Error> {
    lua.load(src).eval::<mlua::Value>()
}

/// Tells the variants of `mlua::Value` apart: hands the table back when the
/// value is one, and nothing otherwise.
#[verifier::external_body]
pub(crate) fn value_into_table(v: mlua::Value) -> Option<mlua::Table> {
    match v {
        mlua::Value::Table(t) => Some(t),
        _ => None,
    }
}

/// Relies on `mlua::Table::get`: looks the key up and hands back the callable
/// stored there, or nothing when the slot is absent or holds no callable.
#[verifier::external_body]
pub(crate) fn table_get_function(t: &mlua::Table, key: &str) -> Option<mlua::Function> {
    t.get::<mlua::Function>(key).ok()
}

/// Relies on `mlua::Lua::create_table`: makes a fresh empty table.
#[verifier::external_body]
pub(crate) fn new_table(lua: &mlua::Lua) -> Result<mlua::Table, mlua::Error> {
    lua.create_table()
}

/// Relies on `mlua::Table::set`: binds the string key to the value.
#[verifier::external_body]
pub(crate) fn table_set(t: &mlua::Table, key: &str, v: mlua::Value) -> Result<(), mlua::Error> {
    t.set(key, v)
}

/// Relies on `mlua::Table::push`: appends the value at the end of the
/// table's sequence part.
#[verifier::external_body]
pub(crate) fn table_push(t: &mlua::Table, v: mlua::Value) -> Result<(), mlua::Error> {
    t.push(v)
}

/// Relies on `mlua::Lua::create_string`: interns the text in the interpreter
/// and wraps it as a native value.
#[verifier::external_body]
pub(crate) fn new_string_value(lua: &mlua::Lua, s: &str) -> Result<mlua::Value, mlua::Error> {
    Ok(mlua::Value::String(lua.create_string(s)?))
}

/// Wraps the nil constant of `mlua::Value`.
#[verifier::external_body]
pub(crate) fn nil_value() -> mlua::Value {
    mlua::Value::Nil
}

/// Wraps the boolean constructor of `mlua::Value`.
#[verifier::external_body]
pub(crate) fn bool_value(b: bool) -> mlua::Value {
    mlua::Value::Boolean(b)
}

/// Wraps the integer constructor of `mlua::Value`.
#[verifier::external_body]
pub(crate) fn int_value(i: i64) -> mlua::Value {
    mlua::Value::Integer(i)
}

/// Wraps the table variant constructor of `mlua::Value`.
#[verifier::external_body]
pub(crate) fn table_value(t: mlua::Table) -> mlua::Value {
    mlua::Value::Table(t)
}

/// Relies on `mlua::Function::call`: invokes the callable with one argument
/// and hands back the single value the script returned, or the interpreter's
/// error when the callable raised.
#[verifier::external_body]
pub(crate) fn call_function(f: &mlua::Function, arg: mlua::Value) -> Result<mlua::Value, mlua::Error> {
    f.call::<mlua::Value>(arg)
}

/// Tells the variants of `mlua::Value` apart and, for a string, relies on
/// `mlua::LuaString::to_str` to read its text. Every shape past the scalar
/// ones (tables, callables, floats, foreign handles, non-UTF-8 strings) is
/// reported unsupported.
#[verifier::external_body]
pub(crate) fn classify_scalar(v: &mlua::Value) -> crate::bridge::NativeScalar {
    match v {
        mlua::Value::Nil => crate::bridge::NativeScalar::Nil,
        mlua::Value::Boolean(b) => crate::bridge::NativeScalar::Bool(*b),
        mlua::Value::Integer(i) => crate::bridge::NativeScalar::Int(*i),
        mlua::Value::String(s) => match s.to_str() {
            Ok(t) => crate::bridge::NativeScalar::Text(String::from(&*t)),
            Err(_) => crate::bridge::NativeScalar::Unsupported,
        },
        _ => crate::bridge::NativeScalar::Unsupported,
    }
}

} // verus!
