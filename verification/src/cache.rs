//! The script runtime cache: owns one interpreter instance and, per script
//! name, at most one compiled entry point. A script is compiled lazily on
//! the first invocation, the resulting callable is cached, and every later
//! invocation reuses it. The whole check-compile-mark-ready step runs under
//! one exclusive borrow, so no caller can ever observe a half-built entry;
//! a process that serves concurrent callers puts the cache behind one lock
//! and holds it across the call.

use vstd::prelude::*;

use crate::bridge::scalar_to_structured;
use crate::bridge::to_native;
use crate::error::RuntimeError;
use crate::lua_api::call_function;
use crate::lua_api::classify_scalar;
use crate::lua_api::eval_chunk;
use crate::lua_api::lua_new;
use crate::lua_api::table_get_function;
use crate::lua_api::value_into_table;
use crate::value::inject;
use crate::value::StructuredValue;

verus! {

/// The lifecycle of one cache entry. `Loading` is only ever held while the
/// exclusive borrow that compiles the script is live: at rest every entry is
/// either untouched or permanently ready.
pub(crate) enum EntryState {
    Uninitialized,
    Loading,
    Ready,
}

/// One entry of the cache: a script name, its registered source text, its
/// lifecycle state, and - once ready - the cached entry-point callable.
pub(crate) struct Slot {
    pub(crate) name: String,
    pub(crate) text: String,
    pub(crate) state: EntryState,
    pub(crate) handle: Option<mlua::Function>,
}

impl Slot {
    /// A slot at rest is never mid-load, and holds a callable exactly when
    /// it is ready: there is no partially-constructed visible state.
    pub(crate) open spec fn wf(self) -> bool {
        &&& (self.state is Ready <==> self.handle is Some)
        &&& !(self.state is Loading)
    }

    pub(crate) open spec fn is_ready(self) -> bool {
        self.state is Ready
    }
}

/// How many slots of `ss` are ready.
pub(crate) open spec fn num_ready(ss: Seq<Slot>) -> int
    decreases ss.len(),
{
    if ss.len() == 0 {
        0
    } else {
        num_ready(ss.drop_last()) + if ss.last().is_ready() {
            1int
        } else {
            0int
        }
    }
}

pub(crate) proof fn lemma_num_ready_bounds(ss: Seq<Slot>)
    ensures
        0 <= num_ready(ss) <= ss.len(),
    decreases ss.len(),
{
    if ss.len() > 0 {
        lemma_num_ready_bounds(ss.drop_last());
    }
}

pub(crate) proof fn lemma_num_ready_update(ss: Seq<Slot>, i: int, s: Slot)
    requires
        0 <= i < ss.len(),
    ensures
        num_ready(ss.update(i, s)) == num_ready(ss) - (if ss[i].is_ready() {
            1int
        } else {
            0int
        }) + (if s.is_ready() {
            1int
        } else {
            0int
        }),
    decreases ss.len(),
{
    let ss2 = ss.update(i, s);
    if i == ss.len() - 1 {
        assert(ss2.drop_last() =~= ss.drop_last());
    } else {
        assert(ss2.drop_last() =~= ss.drop_last().update(i, s));
        lemma_num_ready_update(ss.drop_last(), i, s);
        assert(ss2.last() == ss.last());
    }
}

pub(crate) proof fn lemma_num_ready_push(ss: Seq<Slot>, s: Slot)
    ensures
        num_ready(ss.push(s)) == num_ready(ss) + (if s.is_ready() {
            1int
        } else {
            0int
        }),
{
    assert(ss.push(s).drop_last() =~= ss);
    assert(ss.push(s).last() == s);
}

pub(crate) proof fn lemma_num_ready_not_ready_at(ss: Seq<Slot>, i: int)
    requires
        0 <= i < ss.len(),
        !ss[i].is_ready(),
    ensures
        num_ready(ss) <= ss.len() - 1,
    decreases ss.len(),
{
    if i == ss.len() - 1 {
        lemma_num_ready_bounds(ss.drop_last());
    } else {
        lemma_num_ready_not_ready_at(ss.drop_last(), i);
    }
}

/// In a well-formed cache, the text view at a slot's own name is exactly
/// that slot's text.
proof fn lemma_text_of_slot(c: ScriptCache, i: int)
    requires
        c.wf(),
        0 <= i < c.slots@.len(),
    ensures
        c.spec_text_of(c.slots@[i].name@) == c.slots@[i].text@,
{
    let nm = c.slots@[i].name@;
    assert(c.spec_has(nm));
    let j = choose|j: int| 0 <= j < c.slots@.len() && c.slots@[j].name@ == nm;
    assert(j == i);
}

/// Whether `r` is exactly the error `k`.
pub open spec fn is_err_kind(r: Result<StructuredValue, RuntimeError>, k: RuntimeError) -> bool {
    r matches Err(e) && e == k
}

/// The script runtime cache. It exclusively owns the interpreter instance
/// and every handle derived from it; nothing native ever leaves this struct.
pub struct ScriptCache {
    lua: mlua::Lua,
    slots: Vec<Slot>,
    compiles: u64,
    context_key: String,
    context_value: String,
}

impl ScriptCache {
    /// How many script sources are registered.
    pub closed spec fn spec_script_count(self) -> int {
        self.slots@.len() as int
    }

    /// Whether a script source is registered under `name`.
    pub closed spec fn spec_has(self, name: Seq<char>) -> bool {
        exists|i: int| 0 <= i < self.slots@.len() && self.slots@[i].name@ == name
    }

    /// Whether the script registered under `name` has been compiled and its
    /// entry point cached.
    pub closed spec fn spec_is_ready(self, name: Seq<char>) -> bool {
        exists|i: int|
            0 <= i < self.slots@.len() && self.slots@[i].name@ == name
                && self.slots@[i].is_ready()
    }

    /// The characters of the script text registered under `name`; the empty
    /// sequence when no such script exists. Script content is immutable for
    /// the process lifetime, and this view is what the compiler consumes.
    pub closed spec fn spec_text_of(self, name: Seq<char>) -> Seq<char> {
        if self.spec_has(name) {
            let i = choose|i: int| 0 <= i < self.slots@.len() && self.slots@[i].name@ == name;
            self.slots@[i].text@
        } else {
            Seq::empty()
        }
    }

    /// How many compilations have succeeded over the cache's lifetime.
    pub closed spec fn spec_compiles(self) -> int {
        self.compiles as int
    }

    /// The key of the context field injected into every invocation input.
    pub closed spec fn spec_context_key(self) -> Seq<char> {
        self.context_key@
    }

    /// The value bound to the injected context field.
    pub closed spec fn spec_context_value(self) -> Seq<char> {
        self.context_value@
    }

    /// Well-formedness: script names are unique, every entry is at rest
    /// (ready with a callable, or untouched without one), and the
    /// compilation counter equals the number of ready entries - each
    /// registered script has been compiled successfully at most once.
    pub closed spec fn wf(self) -> bool {
        &&& forall|i: int, j: int|
            0 <= i < j < self.slots@.len() ==> self.slots@[i].name@ != self.slots@[j].name@
        &&& forall|i: int| 0 <= i < self.slots@.len() ==> self.slots@[i].wf()
        &&& self.compiles as int == num_ready(self.slots@)
    }

    /// Both caches register the same script names.
    pub open spec fn same_scripts(self, other: ScriptCache) -> bool {
        forall|n: Seq<char>| self.spec_has(n) <==> other.spec_has(n)
    }

    /// A fresh cache around a fresh interpreter: no scripts, no
    /// compilations, and the fixed server context field.
    pub fn new() -> (r: ScriptCache)
        ensures
            r.wf(),
            r.spec_script_count() == 0,
            r.spec_compiles() == 0,
            forall|n: Seq<char>| !r.spec_has(n),
            forall|n: Seq<char>| !r.spec_is_ready(n),
            r.spec_context_key() == "extra"@,
            r.spec_context_value() == "This is set from server!"@,
    {
        ScriptCache {
            lua: lua_new(),
            slots: Vec::new(),
            compiles: 0,
            context_key: "extra".to_owned(),
            context_value: "This is set from server!".to_owned(),
        }
    }

    /// The index of the slot registered under `key`, if any.
    fn find_slot(&self, key: &String) -> (r: Option<usize>)
        ensures
            (match r {
                Some(i) => i < self.slots@.len() && self.slots@[i as int].name@ == key@,
                None => !self.spec_has(key@),
            }),
    {
        let mut i: usize = 0;
        while i < self.slots.len()
            invariant
                i <= self.slots@.len(),
                forall|j: int| 0 <= j < i ==> self.slots@[j].name@ != key@,
            decreases self.slots@.len() - i,
        {
            if self.slots[i].name == *key {
                return Some(i);
            }
            i = i + 1;
        }
        None
    }

    /// Whether the slot at `idx` is ready.
    fn slot_ready(&self, idx: usize) -> (b: bool)
        requires
            idx < self.slots@.len(),
        ensures
            b == self.slots@[idx as int].is_ready(),
    {
        match &self.slots[idx].state {
            EntryState::Ready => true,
            _ => false,
        }
    }

    /// How many compilations have succeeded so far. A probe for callers that
    /// watch the memoization behaviour.
    pub fn compile_count(&self) -> (r: u64)
        ensures
            r as int == self.spec_compiles(),
    {
        self.compiles
    }

    /// Whether a script source is registered under `name`.
    pub fn has_script(&self, name: &str) -> (r: bool)
        ensures
            r == self.spec_has(name@),
    {
        let key: String = name.to_owned();
        match self.find_slot(&key) {
            Some(_) => true,
            None => false,
        }
    }

    /// Whether the script registered under `name` is compiled and cached.
    pub fn is_ready(&self, name: &str) -> (r: bool)
        requires
            self.wf(),
        ensures
            r == self.spec_is_ready(name@),
    {
        let key: String = name.to_owned();
        match self.find_slot(&key) {
            Some(idx) => {
                let b = self.slot_ready(idx);
                proof {
                    if self.spec_is_ready(name@) {
                        let j = choose|j: int|
                            0 <= j < self.slots@.len() && self.slots@[j].name@ == name@
                                && self.slots@[j].is_ready();
                        assert(j == idx);
                    }
                }
                b
            },
            None => false,
        }
    }

    /// Register the script text for `name`. The first registration wins: a
    /// name that is already present is left untouched, matching the rule
    /// that script content is immutable for the process lifetime.
    pub fn register_source(&mut self, name: String, text: String) -> (r: bool)
        requires
            old(self).wf(),
        ensures
            final(self).wf(),
            r == !old(self).spec_has(name@),
            !r ==> *final(self) == *old(self),
            r ==> final(self).spec_script_count() == old(self).spec_script_count() + 1,
            final(self).spec_compiles() == old(self).spec_compiles(),
            final(self).spec_context_key() == old(self).spec_context_key(),
            final(self).spec_context_value() == old(self).spec_context_value(),
            forall|n: Seq<char>|
                final(self).spec_has(n) <==> (old(self).spec_has(n) || n == name@),
            forall|n: Seq<char>| final(self).spec_is_ready(n) <==> old(self).spec_is_ready(n),
            r ==> final(self).spec_text_of(name@) == text@,
            forall|n: Seq<char>|
                old(self).spec_has(n) ==> final(self).spec_text_of(n) == old(self).spec_text_of(
                    n,
                ),
    {
        match self.find_slot(&name) {
            Some(_) => false,
            None => {
                let ghost ss0 = self.slots@;
                let slot = Slot { name, text, state: EntryState::Uninitialized, handle: None };
                proof {
                    lemma_num_ready_push(ss0, slot);
                }
                self.slots.push(slot);
                proof {
                    assert forall|n: Seq<char>|
                        self.spec_has(n) <==> (old(self).spec_has(n) || n == name@) by {
                        assert(self.slots@[ss0.len() as int].name@ == name@);
                        if self.spec_has(n) {
                            let j = choose|j: int|
                                0 <= j < self.slots@.len() && self.slots@[j].name@ == n;
                            if j < ss0.len() {
                                assert(old(self).slots@[j].name@ == n);
                            }
                        }
                        if old(self).spec_has(n) {
                            let j = choose|j: int| 0 <= j < ss0.len() && ss0[j].name@ == n;
                            assert(self.slots@[j].name@ == n);
                        }
                    }
                    assert forall|n: Seq<char>|
                        self.spec_is_ready(n) <==> old(self).spec_is_ready(n) by {
                        if self.spec_is_ready(n) {
                            let j = choose|j: int|
                                0 <= j < self.slots@.len() && self.slots@[j].name@ == n
                                    && self.slots@[j].is_ready();
                            assert(j < ss0.len());
                            assert(old(self).slots@[j].name@ == n);
                        }
                        if old(self).spec_is_ready(n) {
                            let j = choose|j: int|
                                0 <= j < ss0.len() && ss0[j].name@ == n && ss0[j].is_ready();
                            assert(self.slots@[j].name@ == n);
                        }
                    }
                    assert(self.wf());
                    lemma_text_of_slot(*self, ss0.len() as int);
                    assert forall|n: Seq<char>| old(self).spec_has(n) implies self.spec_text_of(n)
                        == old(self).spec_text_of(n) by {
                        let j = choose|j: int| 0 <= j < ss0.len() && ss0[j].name@ == n;
                        lemma_text_of_slot(*old(self), j);
                        lemma_text_of_slot(*self, j);
                        assert(self.slots@[j].name@ == n);
                        assert(self.slots@[j].text@ == ss0[j].text@);
                    }
                }
                true
            },
        }
    }

    /// The fixed, documented name of the callable a compiled script must
    /// expose as its entry point.
    pub fn entry_point_name() -> (r: &'static str)
        ensures
            r@ == "test"@,
    {
        "test"
    }

    /// Compile the not-yet-ready slot at `idx`: mark it loading, run its
    /// text through the interpreter, locate the entry-point callable in the
    /// resulting table, and mark the slot ready. On any failure the slot
    /// returns to its untouched state, eligible for a later retry, and the
    /// compilation counter is unchanged.
    fn compile_at(&mut self, idx: usize) -> (r: Result<(), RuntimeError>)
        requires
            old(self).wf(),
            idx < old(self).slots@.len(),
            !old(self).slots@[idx as int].is_ready(),
        ensures
            final(self).wf(),
            final(self).slots@.len() == old(self).slots@.len(),
            forall|j: int|
                0 <= j < old(self).slots@.len() && j != idx ==> final(self).slots@[j] == old(
                    self,
                ).slots@[j],
            final(self).slots@[idx as int].name@ == old(self).slots@[idx as int].name@,
            final(self).slots@[idx as int].text@ == old(self).slots@[idx as int].text@,
            final(self).spec_context_key() == old(self).spec_context_key(),
            final(self).spec_context_value() == old(self).spec_context_value(),
            r is Ok ==> final(self).slots@[idx as int].is_ready() && final(self).spec_compiles()
                == old(self).spec_compiles() + 1,
            r is Err ==> !final(self).slots@[idx as int].is_ready() && final(self).spec_compiles()
                == old(self).spec_compiles(),
            r is Err ==> (r == Err::<(), RuntimeError>(RuntimeError::CompileError) || r == Err::<
                (),
                RuntimeError,
            >(RuntimeError::EntryPointMissing)),
    {
        let slot_count = self.slots.len();
        let name = self.slots[idx].name.clone();
        let text = self.slots[idx].text.clone();
        let ghost ss0 = self.slots@;
        let loading = Slot {
            name: name.clone(),
            text: text.clone(),
            state: EntryState::Loading,
            handle: None,
        };
        proof {
            lemma_num_ready_update(ss0, idx as int, loading);
        }
        self.slots.set(idx, loading);
        let evaled = eval_chunk(&self.lua, text.as_str());
        match evaled {
            Err(_) => {
                let back = Slot { name, text, state: EntryState::Uninitialized, handle: None };
                proof {
                    lemma_num_ready_update(self.slots@, idx as int, back);
                }
                self.slots.set(idx, back);
                Err(RuntimeError::CompileError)
            },
            Ok(chunk_value) => match value_into_table(chunk_value) {
                None => {
                    let back = Slot { name, text, state: EntryState::Uninitialized, handle: None };
                    proof {
                        lemma_num_ready_update(self.slots@, idx as int, back);
                    }
                    self.slots.set(idx, back);
                    Err(RuntimeError::EntryPointMissing)
                },
                Some(table) => match table_get_function(&table, Self::entry_point_name()) {
                    None => {
                        let back = Slot {
                            name,
                            text,
                            state: EntryState::Uninitialized,
                            handle: None,
                        };
                        proof {
                            lemma_num_ready_update(self.slots@, idx as int, back);
                        }
                        self.slots.set(idx, back);
                        Err(RuntimeError::EntryPointMissing)
                    },
                    Some(f) => {
                        let ready_slot = Slot {
                            name,
                            text,
                            state: EntryState::Ready,
                            handle: Some(f),
                        };
                        proof {
                            // The slot at `idx` is still mid-load, so the
                            // counter is strictly below the slot count and
                            // the increment cannot overflow.
                            lemma_num_ready_not_ready_at(self.slots@, idx as int);
                            lemma_num_ready_update(self.slots@, idx as int, ready_slot);
                            assert(num_ready(self.slots@) <= slot_count - 1);
                            assert(self.compiles < u64::MAX);
                        }
                        self.slots.set(idx, ready_slot);
                        self.compiles = self.compiles + 1;
                        Ok(())
                    },
                },
            },
        }
    }

    /// Invoke the cached entry point of the ready slot at `idx`: inject the
    /// server context into the mapping-shaped input, encode it, call the
    /// callable, and decode its result. The cache itself is only read.
    fn call_at(&self, idx: usize, input: StructuredValue) -> (r: Result<
        StructuredValue,
        RuntimeError,
    >)
        requires
            self.wf(),
            idx < self.slots@.len(),
            self.slots@[idx as int].is_ready(),
            input.is_mapping(),
        ensures
            r matches Ok(out) ==> out.is_scalar(),
            r is Err ==> (r == Err::<StructuredValue, RuntimeError>(RuntimeError::CallFailed) || r
                == Err::<StructuredValue, RuntimeError>(RuntimeError::ValueBridgeError)),
    {
        let injected_input = match inject(
            input,
            self.context_key.as_str(),
            self.context_value.as_str(),
        ) {
            Ok(x) => x,
            Err(e) => {
                return Err(e);
            },
        };
        let native_input = match to_native(&self.lua, &injected_input) {
            Ok(x) => x,
            Err(e) => {
                return Err(e);
            },
        };
        match &self.slots[idx].handle {
            Some(f) => match call_function(f, native_input) {
                Err(_) => Err(RuntimeError::CallFailed),
                Ok(out_native) => {
                    let s = classify_scalar(&out_native);
                    scalar_to_structured(s)
                },
            },
            None => Err(RuntimeError::CallFailed),
        }
    }

    /// Invoke the script registered under `name` with a mapping-shaped
    /// input. When the entry is not ready yet the script is compiled first -
    /// before this or any other invocation for that name is serviced - and
    /// the entry becomes permanently ready; an already-ready entry is reused
    /// without touching the cache at all. The server context field is
    /// injected into the input either way, so a call behaves the same
    /// whether or not it triggered the compilation.
    pub fn invoke(&mut self, name: &str, input: StructuredValue) -> (r: Result<
        StructuredValue,
        RuntimeError,
    >)
        requires
            old(self).wf(),
        ensures
            final(self).wf(),
            final(self).same_scripts(*old(self)),
            final(self).spec_script_count() == old(self).spec_script_count(),
            final(self).spec_context_key() == old(self).spec_context_key(),
            final(self).spec_context_value() == old(self).spec_context_value(),
            forall|n: Seq<char>| old(self).spec_is_ready(n) ==> final(self).spec_is_ready(n),
            old(self).spec_is_ready(name@) ==> *final(self) == *old(self),
            old(self).spec_compiles() <= final(self).spec_compiles() <= old(self).spec_compiles()
                + 1,
            (final(self).spec_compiles() == old(self).spec_compiles() + 1) <==> (!old(self).spec_is_ready(name@)
                && final(self).spec_is_ready(name@)),
            r is Ok ==> input.is_mapping() && final(self).spec_is_ready(name@),
            r matches Ok(out) ==> out.is_scalar(),
            is_err_kind(r, RuntimeError::SourceNotFound) <==> !old(self).spec_has(name@),
            !old(self).spec_has(name@) ==> *final(self) == *old(self),
            (old(self).spec_has(name@) && !input.is_mapping()) ==> (is_err_kind(
                r,
                RuntimeError::ValueBridgeError,
            ) && *final(self) == *old(self)),
            is_err_kind(r, RuntimeError::CompileError) ==> (!old(self).spec_is_ready(name@)
                && !final(self).spec_is_ready(name@) && final(self).spec_compiles()
                == old(self).spec_compiles()),
            is_err_kind(r, RuntimeError::EntryPointMissing) ==> (!old(self).spec_is_ready(name@)
                && !final(self).spec_is_ready(name@) && final(self).spec_compiles()
                == old(self).spec_compiles()),
            is_err_kind(r, RuntimeError::CallFailed) ==> final(self).spec_is_ready(name@),
            (old(self).spec_has(name@) && input.is_mapping() && is_err_kind(
                r,
                RuntimeError::ValueBridgeError,
            )) ==> final(self).spec_is_ready(name@),
            forall|n: Seq<char>|
                old(self).spec_has(n) ==> final(self).spec_text_of(n) == old(self).spec_text_of(
                    n,
                ),
    {
        let key: String = name.to_owned();
        let idx = match self.find_slot(&key) {
            None => {
                return Err(RuntimeError::SourceNotFound);
            },
            Some(i) => i,
        };
        proof {
            assert(self.slots@[idx as int].name@ == name@);
            assert(old(self).spec_has(name@));
        }
        let mapping_ok = match &input {
            StructuredValue::Mapping(_) => true,
            _ => false,
        };
        if !mapping_ok {
            return Err(RuntimeError::ValueBridgeError);
        }
        let was_ready = self.slot_ready(idx);
        proof {
            if self.spec_is_ready(name@) {
                let j = choose|j: int|
                    0 <= j < self.slots@.len() && self.slots@[j].name@ == name@
                        && self.slots@[j].is_ready();
                assert(j == idx);
            }
            assert(was_ready == old(self).spec_is_ready(name@));
        }
        if !was_ready {
            let compiled = self.compile_at(idx);
            proof {
                lemma_pointwise_slot_change(*old(self), *self, idx as int);
            }
            match compiled {
                Ok(u) => u,
                Err(e) => {
                    return Err(e);
                },
            }
        }
        let out = self.call_at(idx, input);
        proof {
            assert(self.spec_is_ready(name@));
        }
        out
    }
}

/// When only the slot at `idx` changed and kept its name, the name-indexed
/// views of the cache change only at that name.
proof fn lemma_pointwise_slot_change(pre: ScriptCache, post: ScriptCache, idx: int)
    requires
        pre.wf(),
        post.wf(),
        0 <= idx < pre.slots@.len(),
        post.slots@.len() == pre.slots@.len(),
        forall|j: int| 0 <= j < pre.slots@.len() && j != idx ==> post.slots@[j] == pre.slots@[j],
        post.slots@[idx].name@ == pre.slots@[idx].name@,
        post.slots@[idx].text@ == pre.slots@[idx].text@,
    ensures
        post.same_scripts(pre),
        forall|n: Seq<char>|
            n != pre.slots@[idx].name@ ==> (post.spec_is_ready(n) <==> pre.spec_is_ready(n)),
        post.spec_is_ready(pre.slots@[idx].name@) <==> post.slots@[idx].is_ready(),
        pre.spec_is_ready(pre.slots@[idx].name@) <==> pre.slots@[idx].is_ready(),
        forall|n: Seq<char>| pre.spec_has(n) ==> post.spec_text_of(n) == pre.spec_text_of(n),
{
    let nm = pre.slots@[idx].name@;
    assert forall|n: Seq<char>| pre.spec_has(n) implies post.spec_text_of(n)
        == pre.spec_text_of(n) by {
        let j = choose|j: int| 0 <= j < pre.slots@.len() && pre.slots@[j].name@ == n;
        lemma_text_of_slot(pre, j);
        lemma_text_of_slot(post, j);
        assert(post.slots@[j].name@ == n);
        assert(post.slots@[j].text@ == pre.slots@[j].text@);
    }
    assert forall|n: Seq<char>| post.spec_has(n) <==> pre.spec_has(n) by {
        if post.spec_has(n) {
            let j = choose|j: int| 0 <= j < post.slots@.len() && post.slots@[j].name@ == n;
            assert(pre.slots@[j].name@ == n);
        }
        if pre.spec_has(n) {
            let j = choose|j: int| 0 <= j < pre.slots@.len() && pre.slots@[j].name@ == n;
            assert(post.slots@[j].name@ == n);
        }
    }
    assert forall|n: Seq<char>| n != nm implies (post.spec_is_ready(n) <==> pre.spec_is_ready(
        n,
    )) by {
        if post.spec_is_ready(n) {
            let j = choose|j: int|
                0 <= j < post.slots@.len() && post.slots@[j].name@ == n
                    && post.slots@[j].is_ready();
            assert(j != idx);
            assert(pre.slots@[j].name@ == n && pre.slots@[j].is_ready());
        }
        if pre.spec_is_ready(n) {
            let j = choose|j: int|
                0 <= j < pre.slots@.len() && pre.slots@[j].name@ == n && pre.slots@[j].is_ready();
            assert(j != idx);
            assert(post.slots@[j].name@ == n && post.slots@[j].is_ready());
        }
    }
    if post.spec_is_ready(nm) {
        let j = choose|j: int|
            0 <= j < post.slots@.len() && post.slots@[j].name@ == nm && post.slots@[j].is_ready();
        assert(pre.slots@[j].name@ == nm);
        assert(j == idx);
    }
    if post.slots@[idx].is_ready() {
        assert(post.slots@[idx].name@ == nm);
    }
    if pre.spec_is_ready(nm) {
        let j = choose|j: int|
            0 <= j < pre.slots@.len() && pre.slots@[j].name@ == nm && pre.slots@[j].is_ready();
        assert(j == idx);
    }
}

/// Law: successful compilations never outnumber the registered scripts. With
/// the counter equal to the number of ready entries, a well-formed cache has
/// compiled each script at most once over the whole process lifetime, no
/// matter how many invocations ran.
pub proof fn lemma_compiles_bounded_by_scripts(c: ScriptCache)
    requires
        c.wf(),
    ensures
        0 <= c.spec_compiles() <= c.spec_script_count(),
{
    lemma_num_ready_bounds(c.slots@);
}

} // verus!
