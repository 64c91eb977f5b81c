use luaserver::MapEntry;
use luaserver::RuntimeError;
use luaserver::ScriptCache;
use luaserver::StructuredValue;

const OK_SCRIPT: &str = "\
local M = {}\n\
function M.test(input)\n\
  return 'ok:' .. input.username\n\
end\n\
return M\n";

const EXTRA_SCRIPT: &str = "\
local M = {}\n\
function M.test(input)\n\
  return input.extra\n\
end\n\
return M\n";

fn user_input(name: &str) -> StructuredValue {
    StructuredValue::Mapping(vec![MapEntry {
        key: "username".to_string(),
        value: StructuredValue::Str(name.to_string()),
    }])
}

fn str_value(s: &str) -> StructuredValue {
    StructuredValue::Str(s.to_string())
}

#[test]
fn end_to_end_ok_username() {
    let mut cache = ScriptCache::new();
    assert!(cache.register_source("greet".to_string(), OK_SCRIPT.to_string()));
    let first = cache.invoke("greet", user_input("bob"));
    assert_eq!(first, Ok(str_value("ok:bob")));
    assert_eq!(cache.compile_count(), 1);
    let second = cache.invoke("greet", user_input("bob"));
    assert_eq!(second, Ok(str_value("ok:bob")));
    assert_eq!(cache.compile_count(), 1);
}

#[test]
fn memoization_counter_stays_at_one() {
    let mut cache = ScriptCache::new();
    cache.register_source("greet".to_string(), OK_SCRIPT.to_string());
    assert_eq!(cache.compile_count(), 0);
    assert!(!cache.is_ready("greet"));
    cache.invoke("greet", user_input("a")).unwrap();
    assert!(cache.is_ready("greet"));
    assert_eq!(cache.compile_count(), 1);
    for _ in 0..8 {
        cache.invoke("greet", user_input("a")).unwrap();
        assert_eq!(cache.compile_count(), 1);
    }
}

#[test]
fn context_injection_reaches_script() {
    let mut cache = ScriptCache::new();
    cache.register_source("probe".to_string(), EXTRA_SCRIPT.to_string());
    let out = cache.invoke("probe", user_input("alice"));
    assert_eq!(out, Ok(str_value("This is set from server!")));
}

#[test]
fn context_injection_overwrites_colliding_field() {
    let mut cache = ScriptCache::new();
    cache.register_source("probe".to_string(), EXTRA_SCRIPT.to_string());
    let input = StructuredValue::Mapping(vec![MapEntry {
        key: "extra".to_string(),
        value: str_value("caller supplied"),
    }]);
    let out = cache.invoke("probe", input);
    assert_eq!(out, Ok(str_value("This is set from server!")));
}

#[test]
fn reuse_is_idempotent_for_pure_script() {
    let mut cache = ScriptCache::new();
    cache.register_source("greet".to_string(), OK_SCRIPT.to_string());
    let first = cache.invoke("greet", user_input("carol"));
    let second = cache.invoke("greet", user_input("carol"));
    assert_eq!(first, second);
    assert_eq!(first, Ok(str_value("ok:carol")));
}

#[test]
fn missing_script_is_source_not_found() {
    let mut cache = ScriptCache::new();
    let r = cache.invoke("missing-script", StructuredValue::Mapping(vec![]));
    assert_eq!(r, Err(RuntimeError::SourceNotFound));
    assert_eq!(cache.compile_count(), 0);
}

#[test]
fn script_without_entry_point_is_reported() {
    let mut cache = ScriptCache::new();
    cache.register_source(
        "noentry".to_string(),
        "return { unrelated = 1 }\n".to_string(),
    );
    let r = cache.invoke("noentry", user_input("a"));
    assert_eq!(r, Err(RuntimeError::EntryPointMissing));
    assert!(!cache.is_ready("noentry"));
    assert_eq!(cache.compile_count(), 0);
}

#[test]
fn script_evaluating_to_non_table_is_reported() {
    let mut cache = ScriptCache::new();
    cache.register_source("scalar".to_string(), "return 42\n".to_string());
    let r = cache.invoke("scalar", user_input("a"));
    assert_eq!(r, Err(RuntimeError::EntryPointMissing));
}

#[test]
fn bad_syntax_is_compile_error_and_retryable() {
    let mut cache = ScriptCache::new();
    cache.register_source("broken".to_string(), "function ((( nonsense\n".to_string());
    let r1 = cache.invoke("broken", user_input("a"));
    assert_eq!(r1, Err(RuntimeError::CompileError));
    let r2 = cache.invoke("broken", user_input("a"));
    assert_eq!(r2, Err(RuntimeError::CompileError));
    assert_eq!(cache.compile_count(), 0);
    assert!(!cache.is_ready("broken"));
}

#[test]
fn raising_script_is_call_failed() {
    let mut cache = ScriptCache::new();
    cache.register_source(
        "raiser".to_string(),
        "local M = {}\nfunction M.test(input)\n  error('boom')\nend\nreturn M\n".to_string(),
    );
    let r = cache.invoke("raiser", user_input("a"));
    assert_eq!(r, Err(RuntimeError::CallFailed));
    assert!(cache.is_ready("raiser"));
    assert_eq!(cache.compile_count(), 1);
}

#[test]
fn non_mapping_input_is_rejected_before_compiling() {
    let mut cache = ScriptCache::new();
    cache.register_source("greet".to_string(), OK_SCRIPT.to_string());
    let r = cache.invoke("greet", StructuredValue::Int(3));
    assert_eq!(r, Err(RuntimeError::ValueBridgeError));
    assert_eq!(cache.compile_count(), 0);
}

#[test]
fn table_result_is_not_representable() {
    let mut cache = ScriptCache::new();
    cache.register_source(
        "tableout".to_string(),
        "local M = {}\nfunction M.test(input)\n  return { a = 1 }\nend\nreturn M\n".to_string(),
    );
    let r = cache.invoke("tableout", user_input("a"));
    assert_eq!(r, Err(RuntimeError::ValueBridgeError));
}

#[test]
fn scalar_results_round_trip() {
    let mut cache = ScriptCache::new();
    cache.register_source(
        "int".to_string(),
        "local M = {}\nfunction M.test(input)\n  return input.count + 1\nend\nreturn M\n"
            .to_string(),
    );
    let input = StructuredValue::Mapping(vec![MapEntry {
        key: "count".to_string(),
        value: StructuredValue::Int(41),
    }]);
    assert_eq!(cache.invoke("int", input), Ok(StructuredValue::Int(42)));

    cache.register_source(
        "flag".to_string(),
        "local M = {}\nfunction M.test(input)\n  return input.flag\nend\nreturn M\n".to_string(),
    );
    let input = StructuredValue::Mapping(vec![MapEntry {
        key: "flag".to_string(),
        value: StructuredValue::Bool(true),
    }]);
    assert_eq!(cache.invoke("flag", input), Ok(StructuredValue::Bool(true)));

    cache.register_source(
        "nothing".to_string(),
        "local M = {}\nfunction M.test(input)\n  return nil\nend\nreturn M\n".to_string(),
    );
    assert_eq!(
        cache.invoke("nothing", user_input("a")),
        Ok(StructuredValue::Null)
    );
}

#[test]
fn nested_mapping_input_is_encoded() {
    let mut cache = ScriptCache::new();
    cache.register_source(
        "nested".to_string(),
        "local M = {}\nfunction M.test(input)\n  return input.outer.inner\nend\nreturn M\n"
            .to_string(),
    );
    let input = StructuredValue::Mapping(vec![MapEntry {
        key: "outer".to_string(),
        value: StructuredValue::Mapping(vec![MapEntry {
            key: "inner".to_string(),
            value: str_value("deep"),
        }]),
    }]);
    assert_eq!(cache.invoke("nested", input), Ok(str_value("deep")));
}

#[test]
fn list_input_is_encoded_in_order() {
    let mut cache = ScriptCache::new();
    cache.register_source(
        "list".to_string(),
        "local M = {}\nfunction M.test(input)\n  return input.items[2]\nend\nreturn M\n"
            .to_string(),
    );
    let input = StructuredValue::Mapping(vec![MapEntry {
        key: "items".to_string(),
        value: StructuredValue::List(vec![str_value("a"), str_value("b"), str_value("c")]),
    }]);
    assert_eq!(cache.invoke("list", input), Ok(str_value("b")));
}

#[test]
fn first_registration_wins() {
    let mut cache = ScriptCache::new();
    assert!(cache.register_source(
        "dup".to_string(),
        "local M = {}\nfunction M.test(input)\n  return 'first'\nend\nreturn M\n".to_string(),
    ));
    assert!(!cache.register_source(
        "dup".to_string(),
        "local M = {}\nfunction M.test(input)\n  return 'second'\nend\nreturn M\n".to_string(),
    ));
    assert_eq!(cache.invoke("dup", user_input("a")), Ok(str_value("first")));
}

#[test]
fn has_script_reports_registration() {
    let mut cache = ScriptCache::new();
    assert!(!cache.has_script("greet"));
    cache.register_source("greet".to_string(), OK_SCRIPT.to_string());
    assert!(cache.has_script("greet"));
    assert!(!cache.has_script("other"));
}

#[test]
fn entry_point_name_is_fixed() {
    assert_eq!(ScriptCache::entry_point_name(), "test");
}

#[test]
fn distinct_scripts_compile_independently() {
    let mut cache = ScriptCache::new();
    cache.register_source("greet".to_string(), OK_SCRIPT.to_string());
    cache.register_source("probe".to_string(), EXTRA_SCRIPT.to_string());
    assert_eq!(
        cache.invoke("greet", user_input("dora")),
        Ok(str_value("ok:dora"))
    );
    assert_eq!(cache.compile_count(), 1);
    assert_eq!(
        cache.invoke("probe", user_input("dora")),
        Ok(str_value("This is set from server!"))
    );
    assert_eq!(cache.compile_count(), 2);
    assert_eq!(
        cache.invoke("greet", user_input("erin")),
        Ok(str_value("ok:erin"))
    );
    assert_eq!(cache.compile_count(), 2);
}
