//! The embedded Lua interpreter that conditions and transforms run in.
//!
//! Each interpreter carries a history, `lua_history`, of the exchanges the
//! library has had with it: each evaluation with its answer, and each binding
//! and unbinding of a global. Only the calls into the interpreter extend it.
//! A `ScriptContext` owns one interpreter, and beside its history a record of
//! the steps of an evaluation: those exchanges, and the template files read
//! for nested templates, each with the steps of the nested run.

use vstd::prelude::*;

verus! {

#[verifier::external_type_specification]
#[verifier::external_body]
pub struct ExLua(rlua::Lua);

/// A value that a script evaluated to, as far as the templates care.
#[derive(Debug, Clone, PartialEq, Eq)]
pub enum ScriptValue {
    Boolean(bool),
    Text(String),
    /// Any other Lua value: nil, a number, a table, a function, ...
    Other,
}

/// A fault that the interpreter reported.
#[derive(Debug, Clone, PartialEq, Eq)]
pub struct ScriptError {
    pub message: String,
}

/// What an evaluation answered.
pub enum Answer {
    Boolean(bool),
    Text(Seq<char>),
    Other,
    Failed,
}

/// One exchange with an interpreter.
pub enum Event {
    /// `code` was evaluated and gave `answer`.
    Eval { code: Seq<char>, answer: Answer },
    /// The global `name` was set to the string `value`; `ok` if that worked.
    Bind { name: Seq<char>, value: Seq<char>, ok: bool },
    /// The global `name` was set to nil; `ok` if that worked.
    Unbind { name: Seq<char>, ok: bool },
}

/// One step of an evaluation.
pub enum Step {
    /// An exchange with the evaluation's own interpreter.
    Interp(Event),
    /// The template file `path` was read, giving its text or the reason it
    /// could not be read; `nested`
    /// holds the steps of running that text in a context of its own.
    Read { path: Seq<char>, text: Result<Seq<char>, Seq<char>>, nested: Seq<Step> },
}

/// The exchanges that an interpreter has had with the library, oldest first.
pub uninterp spec fn lua_history(lua: rlua::Lua) -> Seq<Event>;

pub open spec fn answer_of(r: Result<ScriptValue, ScriptError>) -> Answer {
    match r {
        Ok(ScriptValue::Boolean(b)) => Answer::Boolean(b),
        Ok(ScriptValue::Text(s)) => Answer::Text(s@),
        Ok(ScriptValue::Other) => Answer::Other,
        Err(_) => Answer::Failed,
    }
}

pub open spec fn text_of(r: Result<String, String>) -> Result<Seq<char>, Seq<char>> {
    match r {
        Ok(s) => Ok(s@),
        Err(why) => Err(why@),
    }
}

/// The exchanges of a sequence of steps with the evaluation's own
/// interpreter; those of nested runs are not among them.
pub open spec fn interp_events(t: Seq<Step>) -> Seq<Event>
    decreases t.len(),
{
    if t.len() == 0 {
        Seq::empty()
    } else {
        interp_events(t.drop_last()) + step_events(t.last())
    }
}

/// The exchange of one step with the evaluation's own interpreter, if any.
pub open spec fn step_events(s: Step) -> Seq<Event> {
    match s {
        Step::Interp(e) => seq![e],
        Step::Read { .. } => Seq::empty(),
    }
}

pub proof fn lemma_interp_events_single(s: Step)
    ensures
        interp_events(seq![s]) == step_events(s),
{
    assert(seq![s].drop_last() =~= Seq::<Step>::empty());
    assert(interp_events(Seq::<Step>::empty()) == Seq::<Event>::empty());
    assert(seq![s].last() == s);
    assert(Seq::<Event>::empty() + step_events(s) =~= step_events(s));
}

pub proof fn lemma_interp_events_concat(a: Seq<Step>, b: Seq<Step>)
    ensures
        interp_events(a + b) == interp_events(a) + interp_events(b),
    decreases b.len(),
{
    if b.len() == 0 {
        assert(a + b =~= a);
        assert(interp_events(a) + interp_events(b) =~= interp_events(a));
    } else {
        assert((a + b).drop_last() =~= a + b.drop_last());
        lemma_interp_events_concat(a, b.drop_last());
        assert(interp_events(a + b) =~= interp_events(a) + interp_events(b));
    }
}

/// Relies on rlua's `Lua::new`: a new, independent interpreter state with the
/// standard libraries but the debug library.
#[verifier::external_body]
fn new_lua() -> (r: rlua::Lua)
    ensures
        lua_history(r) == Seq::<Event>::empty(),
{
    rlua::Lua::new()
}

/// Relies on rlua's `Context::load` and `Chunk::eval`: runs `code` in the
/// interpreter's global environment, as an expression where it parses as one
/// and as a block otherwise, and hands back its first value. Strings that are
/// not UTF-8 count as a fault. rlua hands out its `Context` only inside
/// `Lua::context`, so the call and the conversion of its value stand in that
/// closure. The answer depends on the interpreter's state, so nothing is
/// promised of it beyond its place in the history.
#[verifier::external_body]
fn lua_eval(lua: &mut rlua::Lua, code: &str) -> (r: Result<ScriptValue, ScriptError>)
    ensures
        lua_history(*final(lua)) == lua_history(*old(lua)).push(
            Event::Eval { code: code@, answer: answer_of(r) },
        ),
{
    lua.context(
        |ctx| match ctx.load(code).eval::<rlua::Value>() {
            Ok(rlua::Value::Boolean(b)) => Ok(ScriptValue::Boolean(b)),
            Ok(rlua::Value::String(s)) => match s.to_str() {
                Ok(t) => Ok(ScriptValue::Text(t.to_string())),
                Err(e) => Err(ScriptError { message: e.to_string() }),
            },
            Ok(_) => Ok(ScriptValue::Other),
            Err(e) => Err(ScriptError { message: e.to_string() }),
        },
    )
}

/// Relies on rlua's `Table::raw_set` on the globals table: sets the global
/// `name` to the string `value` without running any metamethod.
#[verifier::external_body]
fn lua_set_global(lua: &mut rlua::Lua, name: &str, value: &str) -> (r: Result<(), ScriptError>)
    ensures
        lua_history(*final(lua)) == lua_history(*old(lua)).push(
            Event::Bind { name: name@, value: value@, ok: r is Ok },
        ),
{
    lua.context(|ctx| ctx.globals().raw_set(name, value)).map_err(
        |e| ScriptError { message: e.to_string() },
    )
}

/// Relies on rlua's `Table::raw_set` on the globals table: sets the global
/// `name` to nil, which removes it, without running any metamethod.
#[verifier::external_body]
fn lua_unset_global(lua: &mut rlua::Lua, name: &str) -> (r: Result<(), ScriptError>)
    ensures
        lua_history(*final(lua)) == lua_history(*old(lua)).push(
            Event::Unbind { name: name@, ok: r is Ok },
        ),
{
    lua.context(|ctx| ctx.globals().raw_set(name, rlua::Value::Nil)).map_err(
        |e| ScriptError { message: e.to_string() },
    )
}

/// An interpreter with its own global namespace, and the record of the steps
/// the library has taken with it.
pub struct ScriptContext {
    lua: rlua::Lua,
    steps: Ghost<Seq<Step>>,
}

impl ScriptContext {
    /// The exchanges that this context's interpreter has had, oldest first.
    pub closed spec fn history(&self) -> Seq<Event> {
        lua_history(self.lua)
    }

    /// The steps taken with this context, oldest first.
    pub closed spec fn steps(&self) -> Seq<Step> {
        self.steps@
    }

    /// A fresh interpreter, sharing nothing with any other.
    pub fn new() -> (r: ScriptContext)
        ensures
            r.history() == Seq::<Event>::empty(),
            r.steps() == Seq::<Step>::empty(),
    {
        ScriptContext { lua: new_lua(), steps: Ghost(Seq::empty()) }
    }

    /// Evaluates `code`; the exchange joins the history and the steps.
    pub fn eval(&mut self, code: &str) -> (r: Result<ScriptValue, ScriptError>)
        ensures
            final(self).history() == old(self).history().push(
                Event::Eval { code: code@, answer: answer_of(r) },
            ),
            final(self).steps() == old(self).steps().push(
                Step::Interp(Event::Eval { code: code@, answer: answer_of(r) }),
            ),
    {
        let r = lua_eval(&mut self.lua, code);
        self.steps = Ghost(
            self.steps@.push(Step::Interp(Event::Eval { code: code@, answer: answer_of(r) })),
        );
        r
    }

    /// Sets the global `name` to `value`; the exchange joins the history and
    /// the steps.
    pub fn bind(&mut self, name: &str, value: &str) -> (r: Result<(), ScriptError>)
        ensures
            final(self).history() == old(self).history().push(
                Event::Bind { name: name@, value: value@, ok: r is Ok },
            ),
            final(self).steps() == old(self).steps().push(
                Step::Interp(Event::Bind { name: name@, value: value@, ok: r is Ok }),
            ),
    {
        let r = lua_set_global(&mut self.lua, name, value);
        self.steps = Ghost(
            self.steps@.push(Step::Interp(Event::Bind { name: name@, value: value@, ok: r is Ok })),
        );
        r
    }

    /// Removes the global `name`; the exchange joins the history and the
    /// steps.
    pub fn unbind(&mut self, name: &str) -> (r: Result<(), ScriptError>)
        ensures
            final(self).history() == old(self).history().push(
                Event::Unbind { name: name@, ok: r is Ok },
            ),
            final(self).steps() == old(self).steps().push(
                Step::Interp(Event::Unbind { name: name@, ok: r is Ok }),
            ),
    {
        let r = lua_unset_global(&mut self.lua, name);
        self.steps = Ghost(self.steps@.push(Step::Interp(Event::Unbind { name: name@, ok: r is Ok })));
        r
    }

    /// Records that the template file `path` was read with result `text`,
    /// and that running it took the steps of `nested`; the interpreter is
    /// left alone.
    pub(crate) fn record_read(&mut self, path: &str, text: &Result<String, String>, nested: Ghost<Seq<Step>>)
        ensures
            final(self).history() == old(self).history(),
            final(self).steps() == old(self).steps().push(
                Step::Read { path: path@, text: text_of(*text), nested: nested@ },
            ),
    {
        self.steps = Ghost(
            self.steps@.push(Step::Read { path: path@, text: text_of(*text), nested: nested@ }),
        );
    }
}

} // verus!
