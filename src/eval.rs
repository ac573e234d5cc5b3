//! Evaluation of a directive tree against a scripting context.
//!
//! The meaning of an evaluation is given by `eval_seq` and `eval_one`: given
//! its steps in the order they happen (exchanges with the interpreter, and
//! template files read, each with the steps of its nested run), they say what
//! output, or what error, results and how many steps were used. The evaluator
//! is proved to produce exactly that, over exactly the steps it recorded;
//! those steps' exchanges are exactly what its interpreter's history gained,
//! and each file text in them is what the reader returned.

use vstd::prelude::*;
use crate::config::{ConfigView, ParserConfig};
use crate::directive::{DirSpec, Directive, dir_view, seq_view};
use crate::parser::{ParseError, parse_spec, parse_template_str};
use crate::script::{
    Answer, Event, ScriptContext, ScriptError, ScriptValue, Step, interp_events,
    lemma_interp_events_concat, lemma_interp_events_single, text_of,
};

verus! {

broadcast use vstd::seq::group_seq_axioms;

/// How many template files may be nested through file inclusions; the
/// innermost file beyond that is refused, so that a file that names itself
/// cannot run forever.
pub const MAX_NESTING: usize = 64;

/// Why a template could not be generated.
#[derive(Debug, Clone, PartialEq, Eq)]
pub enum TemplateError {
    /// The template, or a nested template file, is malformed.
    Parse(ParseError),
    /// The interpreter reported a fault.
    Script(ScriptError),
    /// A condition evaluated to something other than a boolean.
    NotBoolean { condition: String },
    /// A transform script evaluated to something other than a string.
    NotText { script: String },
    /// A nested template file could not be read, for the reason given.
    Io { path: String, reason: String },
    /// Nested template files went deeper than `MAX_NESTING`.
    TooDeep { path: String },
}

/// The kinds of `TemplateError`, with what each names: the unparsed suffix,
/// the condition, the script, or the path. An interpreter's message is left
/// open.
pub enum ErrorKind {
    Parse(Seq<char>),
    Script,
    NotBoolean(Seq<char>),
    NotText(Seq<char>),
    Io(Seq<char>, Seq<char>),
    TooDeep(Seq<char>),
}

pub open spec fn kind_of(e: TemplateError) -> ErrorKind {
    match e {
        TemplateError::Parse(p) => ErrorKind::Parse(p.remaining@),
        TemplateError::Script(_) => ErrorKind::Script,
        TemplateError::NotBoolean { condition } => ErrorKind::NotBoolean(condition@),
        TemplateError::NotText { script } => ErrorKind::NotText(script@),
        TemplateError::Io { path, reason } => ErrorKind::Io(path@, reason@),
        TemplateError::TooDeep { path } => ErrorKind::TooDeep(path@),
    }
}

/// The result of evaluating against a sequence of steps: output or error,
/// each with the number of steps used; `Stuck` where the steps do not fit the
/// directives.
pub enum Outcome {
    Done { out: Seq<char>, used: nat },
    Failed { kind: ErrorKind, used: nat },
    Stuck,
}

pub open spec fn outcome_of(r: Result<String, TemplateError>, used: nat) -> Outcome {
    match r {
        Ok(s) => Outcome::Done { out: s@, used },
        Err(e) => Outcome::Failed { kind: kind_of(e), used },
    }
}

pub open spec fn shift(o: Outcome, k: nat) -> Outcome {
    match o {
        Outcome::Done { out, used } => Outcome::Done { out, used: used + k },
        Outcome::Failed { kind, used } => Outcome::Failed { kind, used: used + k },
        Outcome::Stuck => Outcome::Stuck,
    }
}

/// The answer to the condition `cond` decides: `true` and `false` pick,
/// anything else fails.
pub open spec fn decide(cond: Seq<char>, answer: Answer, yes: Outcome, no: Outcome) -> Outcome {
    match answer {
        Answer::Boolean(b) => if b {
            yes
        } else {
            no
        },
        Answer::Failed => Outcome::Failed { kind: ErrorKind::Script, used: 1 },
        _ => Outcome::Failed { kind: ErrorKind::NotBoolean(cond), used: 1 },
    }
}

/// The end of a transform, once its blocks gave `value` using `used` steps:
/// the binding, the script, and the unbinding, in that order.
pub open spec fn transform_tail(
    name: Seq<char>,
    script: Seq<char>,
    value: Seq<char>,
    rest: Seq<Step>,
    used: nat,
) -> Outcome {
    if rest.len() >= 1 && rest[0] == Step::Interp(Event::Bind { name, value, ok: false }) {
        Outcome::Failed { kind: ErrorKind::Script, used: used + 1 }
    } else if rest.len() >= 3 && rest[0] == Step::Interp(Event::Bind { name, value, ok: true })
        && rest[1] is Interp && rest[1]->Interp_0 is Eval && rest[1]->Interp_0->Eval_code == script
        && rest[2] is Interp && rest[2]->Interp_0 is Unbind && rest[2]->Interp_0->Unbind_name
        == name {
        let unbound = rest[2]->Interp_0->Unbind_ok;
        match rest[1]->Interp_0->Eval_answer {
            Answer::Text(x) => if unbound {
                Outcome::Done { out: x, used: used + 3 }
            } else {
                Outcome::Failed { kind: ErrorKind::Script, used: used + 3 }
            },
            Answer::Failed => Outcome::Failed { kind: ErrorKind::Script, used: used + 3 },
            _ => Outcome::Failed { kind: ErrorKind::NotText(script), used: used + 3 },
        }
    } else {
        Outcome::Stuck
    }
}

/// The first step evaluates the condition `cond`.
pub open spec fn evaluates_first(t: Seq<Step>, cond: Seq<char>) -> bool {
    t.len() > 0 && t[0] is Interp && t[0]->Interp_0 is Eval && t[0]->Interp_0->Eval_code == cond
}

/// A nested run counts as one step of the run around it, and must use all of
/// its own steps.
pub open spec fn as_one_step(o: Outcome, n: nat) -> Outcome {
    match o {
        Outcome::Done { out, used } => if used == n {
            Outcome::Done { out, used: 1 }
        } else {
            Outcome::Stuck
        },
        Outcome::Failed { kind, used } => if used == n {
            Outcome::Failed { kind, used: 1 }
        } else {
            Outcome::Stuck
        },
        Outcome::Stuck => Outcome::Stuck,
    }
}

/// Evaluating one directive against the steps `t`, with `depth` more levels
/// of nested template files allowed. A nested template file is read in one
/// step, and its run's steps stand inside that step: they are exchanges with
/// an interpreter of their own, not with this one.
pub open spec fn eval_one(c: ConfigView, d: DirSpec, t: Seq<Step>, depth: nat) -> Outcome
    decreases t, d,
{
    match d {
        DirSpec::Text(x) => Outcome::Done { out: x, used: 0 },
        DirSpec::If(cond, body) => if evaluates_first(t, cond) {
            decide(
                cond,
                t[0]->Interp_0->Eval_answer,
                shift(eval_seq(c, body, t.skip(1), depth), 1),
                Outcome::Done { out: Seq::empty(), used: 1 },
            )
        } else {
            Outcome::Stuck
        },
        DirSpec::IfElse(cond, a, b) => if evaluates_first(t, cond) {
            decide(
                cond,
                t[0]->Interp_0->Eval_answer,
                shift(eval_seq(c, a, t.skip(1), depth), 1),
                shift(eval_seq(c, b, t.skip(1), depth), 1),
            )
        } else {
            Outcome::Stuck
        },
        DirSpec::Include(path) => if depth == 0 {
            Outcome::Failed { kind: ErrorKind::TooDeep(path), used: 0 }
        } else if t.len() > 0 && t[0] is Read && t[0]->Read_path == path {
            let nested = t[0]->Read_nested;
            match t[0]->Read_text {
                Err(why) => if nested.len() == 0 {
                    Outcome::Failed { kind: ErrorKind::Io(path, why), used: 1 }
                } else {
                    Outcome::Stuck
                },
                Ok(x) => match parse_spec(c, x) {
                    Err(rest) => if nested.len() == 0 {
                        Outcome::Failed { kind: ErrorKind::Parse(rest), used: 1 }
                    } else {
                        Outcome::Stuck
                    },
                    Ok(ds) => as_one_step(
                        eval_seq(c, ds, nested, (depth - 1) as nat),
                        nested.len(),
                    ),
                },
            }
        } else {
            Outcome::Stuck
        },
        DirSpec::Transform(name, script, body) => match eval_seq(c, body, t, depth) {
            Outcome::Done { out, used } => if used <= t.len() {
                transform_tail(name, script, out, t.skip(used as int), used)
            } else {
                Outcome::Stuck
            },
            other => other,
        },
    }
}

/// Evaluating a sequence of directives: each in turn, strictly in order, the
/// outputs concatenated; the first error ends it.
pub open spec fn eval_seq(c: ConfigView, ds: Seq<DirSpec>, t: Seq<Step>, depth: nat) -> Outcome
    decreases t, ds,
{
    if ds.len() == 0 {
        Outcome::Done { out: Seq::empty(), used: 0 }
    } else {
        match eval_one(c, ds[0], t, depth) {
            Outcome::Done { out, used } => if used <= t.len() {
                let rest = if used == 0 {
                    eval_seq(c, ds.drop_first(), t, depth)
                } else {
                    eval_seq(c, ds.drop_first(), t.skip(used as int), depth)
                };
                match rest {
                    Outcome::Done { out: more_out, used: more } => Outcome::Done {
                        out: out + more_out,
                        used: used + more,
                    },
                    Outcome::Failed { kind, used: more } => Outcome::Failed {
                        kind,
                        used: used + more,
                    },
                    Outcome::Stuck => Outcome::Stuck,
                }
            } else {
                Outcome::Stuck
            },
            other => other,
        }
    }
}

pub open spec fn used_of(o: Outcome) -> nat {
    match o {
        Outcome::Done { used, .. } => used,
        Outcome::Failed { used, .. } => used,
        Outcome::Stuck => 0,
    }
}

/// `new` is `old` with steps added at the end.
pub open spec fn extends(new: Seq<Step>, old: Seq<Step>) -> bool {
    old.len() <= new.len() && new.subrange(0, old.len() as int) == old
}

/// The steps of `new` after those of `old`.
pub open spec fn added(new: Seq<Step>, old: Seq<Step>) -> Seq<Step> {
    new.skip(old.len() as int)
}

/// A file read in the step `s`, and in any nested run inside it, gave the
/// text that `read` returned for that path.
pub open spec fn read_honest<F: Fn(&str) -> Result<String, String>>(s: Step, read: F) -> bool
    decreases s,
{
    match s {
        Step::Interp(_) => true,
        Step::Read { path, text, nested } => (exists|p: &str, o: Result<String, String>|
            #[trigger] read.ensures((p,), o) && p@ == path && text_of(o) == text) && reads_honest(
            nested,
            read,
        ),
    }
}

/// Every file read in the steps `t` gave the text that `read` returned.
pub open spec fn reads_honest<F: Fn(&str) -> Result<String, String>>(t: Seq<Step>, read: F) -> bool
    decreases t,
{
    if t.len() == 0 {
        true
    } else {
        reads_honest(t.drop_last(), read) && read_honest(t.last(), read)
    }
}

/// From `before` to `after`, the context took steps at the end of its
/// record; their exchanges with its own interpreter are exactly what the
/// interpreter's history gained; and each file text among them is what
/// `read` returned.
pub open spec fn advanced<F: Fn(&str) -> Result<String, String>>(
    before: ScriptContext,
    after: ScriptContext,
    read: F,
) -> bool {
    &&& extends(after.steps(), before.steps())
    &&& after.history() == before.history() + interp_events(added(after.steps(), before.steps()))
    &&& reads_honest(added(after.steps(), before.steps()), read)
}

proof fn lemma_reads_honest_concat<F: Fn(&str) -> Result<String, String>>(
    a: Seq<Step>,
    b: Seq<Step>,
    read: F,
)
    ensures
        reads_honest(a + b, read) == (reads_honest(a, read) && reads_honest(b, read)),
    decreases b.len(),
{
    if b.len() == 0 {
        assert(a + b =~= a);
    } else {
        assert((a + b).drop_last() =~= a + b.drop_last());
        lemma_reads_honest_concat(a, b.drop_last(), read);
    }
}

proof fn lemma_advanced_refl<F: Fn(&str) -> Result<String, String>>(c: ScriptContext, read: F)
    ensures
        advanced(c, c, read),
        added(c.steps(), c.steps()) == Seq::<Step>::empty(),
{
    assert(c.steps().subrange(0, c.steps().len() as int) =~= c.steps());
    assert(added(c.steps(), c.steps()) =~= Seq::<Step>::empty());
    assert(c.history() + Seq::<Event>::empty() =~= c.history());
}

proof fn lemma_advanced_push<F: Fn(&str) -> Result<String, String>>(
    before: ScriptContext,
    after: ScriptContext,
    s: Step,
    read: F,
)
    requires
        after.steps() == before.steps().push(s),
        s is Interp ==> after.history() == before.history().push(s->Interp_0),
        s is Read ==> after.history() == before.history(),
        read_honest(s, read),
    ensures
        advanced(before, after, read),
        added(after.steps(), before.steps()) == seq![s],
{
    lemma_interp_events_single(s);
    assert(after.history() =~= before.history() + interp_events(seq![s]));
    assert(seq![s].last() == s);
    assert(seq![s].drop_last() =~= Seq::<Step>::empty());
    assert(reads_honest(Seq::<Step>::empty(), read));
    assert(reads_honest(seq![s], read));
    assert(after.steps().subrange(0, before.steps().len() as int) =~= before.steps());
    assert(added(after.steps(), before.steps()) =~= seq![s]);
    assert(seq![s].drop_last() =~= Seq::<Step>::empty());
}

proof fn lemma_advanced_trans<F: Fn(&str) -> Result<String, String>>(
    a: ScriptContext,
    b: ScriptContext,
    c: ScriptContext,
    read: F,
)
    requires
        advanced(a, b, read),
        advanced(b, c, read),
    ensures
        advanced(a, c, read),
        added(c.steps(), a.steps()) == added(b.steps(), a.steps()) + added(c.steps(), b.steps()),
{
    let (sa, sb, sc) = (a.steps(), b.steps(), c.steps());
    assert(sc.subrange(0, sa.len() as int) =~= sb.subrange(0, sa.len() as int));
    assert(added(sc, sa) =~= added(sb, sa) + added(sc, sb));
    lemma_interp_events_concat(added(sb, sa), added(sc, sb));
    lemma_reads_honest_concat(added(sb, sa), added(sc, sb), read);
    assert(c.history() =~= a.history() + interp_events(added(sc, sa)));
}

/// An evaluation that fits its steps reads only the steps it uses: more
/// steps after them change nothing.
pub proof fn lemma_frame_one(c: ConfigView, d: DirSpec, t: Seq<Step>, more: Seq<Step>, depth: nat)
    requires
        !(eval_one(c, d, t, depth) is Stuck),
    ensures
        eval_one(c, d, t + more, depth) == eval_one(c, d, t, depth),
        used_of(eval_one(c, d, t, depth)) <= t.len(),
    decreases t, d,
{
    let tm = t + more;
    match d {
        DirSpec::Text(x) => {},
        DirSpec::If(cond, body) => {
            assert(tm[0] == t[0]);
            assert(tm.skip(1) =~= t.skip(1) + more);
            if t[0]->Interp_0->Eval_answer == Answer::Boolean(true) {
                lemma_frame_seq(c, body, t.skip(1), more, depth);
            }
        },
        DirSpec::IfElse(cond, a, b) => {
            assert(tm[0] == t[0]);
            assert(tm.skip(1) =~= t.skip(1) + more);
            if t[0]->Interp_0->Eval_answer == Answer::Boolean(true) {
                lemma_frame_seq(c, a, t.skip(1), more, depth);
            } else if t[0]->Interp_0->Eval_answer == Answer::Boolean(false) {
                lemma_frame_seq(c, b, t.skip(1), more, depth);
            }
        },
        DirSpec::Include(path) => {
            if depth > 0 {
                assert(tm[0] == t[0]);
            }
        },
        DirSpec::Transform(name, script, body) => {
            lemma_frame_seq(c, body, t, more, depth);
            if let Outcome::Done { out, used } = eval_seq(c, body, t, depth) {
                let rest = t.skip(used as int);
                assert(tm.skip(used as int) =~= rest + more);
                if rest.len() >= 1 {
                    assert((rest + more)[0] == rest[0]);
                }
                if rest.len() >= 3 {
                    assert((rest + more)[1] == rest[1]);
                    assert((rest + more)[2] == rest[2]);
                }
            }
        },
    }
}

/// The same for a sequence of directives.
pub proof fn lemma_frame_seq(
    c: ConfigView,
    ds: Seq<DirSpec>,
    t: Seq<Step>,
    more: Seq<Step>,
    depth: nat,
)
    requires
        !(eval_seq(c, ds, t, depth) is Stuck),
    ensures
        eval_seq(c, ds, t + more, depth) == eval_seq(c, ds, t, depth),
        used_of(eval_seq(c, ds, t, depth)) <= t.len(),
    decreases t, ds,
{
    if ds.len() > 0 {
        lemma_frame_one(c, ds[0], t, more, depth);
        if let Outcome::Done { out, used } = eval_one(c, ds[0], t, depth) {
            if used == 0 {
                lemma_frame_seq(c, ds.drop_first(), t, more, depth);
            } else {
                assert((t + more).skip(used as int) =~= t.skip(used as int) + more);
                lemma_frame_seq(c, ds.drop_first(), t.skip(used as int), more, depth);
            }
        }
    }
}

proof fn lemma_seq_view(ds: Seq<Directive>)
    ensures
        seq_view(ds).len() == ds.len(),
        forall|k: int| 0 <= k < ds.len() ==> #[trigger] seq_view(ds)[k] == dir_view(ds[k]),
    decreases ds.len(),
{
    if ds.len() > 0 {
        lemma_seq_view(ds.drop_first());
        assert forall|k: int| 0 <= k < ds.len() implies #[trigger] seq_view(ds)[k] == dir_view(
            ds[k],
        ) by {
            if k > 0 {
                assert(ds.drop_first()[k - 1] == ds[k]);
            }
        }
    }
}

#[verifier::rlimit(60)]
fn generate_one<F: Fn(&str) -> Result<String, String>>(
    cfg: &ParserConfig,
    d: &Directive,
    ctx: &mut ScriptContext,
    read: &F,
    depth: usize,
) -> (r: Result<String, TemplateError>)
    requires
        forall|p: &str| read.requires((p,)),
    ensures
        advanced(*old(ctx), *final(ctx), *read),
        eval_one(cfg@, dir_view(*d), added(final(ctx).steps(), old(ctx).steps()), depth as nat)
            == outcome_of(r, added(final(ctx).steps(), old(ctx).steps()).len()),
    decreases depth, d, 0int,
{
    let ghost c0 = *ctx;
    proof {
        lemma_advanced_refl(c0, *read);
    }
    match d {
        Directive::Text(x) => Ok(x.clone()),
        Directive::If { condition, blocks } => {
            let ans = ctx.eval(condition.as_str());
            let ghost c1 = *ctx;
            proof {
                lemma_advanced_push(c0, c1, c1.steps().last(), *read);
            }
            match ans {
                Ok(ScriptValue::Boolean(true)) => {
                    let r = generate_from(cfg, blocks, 0, ctx, read, depth);
                    proof {
                        lemma_advanced_trans(c0, c1, *ctx, *read);
                        assert(added(ctx.steps(), c0.steps()).skip(1) =~= added(ctx.steps(), c1.steps()));
                        assert(seq_view(blocks@).skip(0) =~= seq_view(blocks@));
                    }
                    r
                },
                Ok(ScriptValue::Boolean(false)) => Ok(String::new()),
                Ok(_) => Err(TemplateError::NotBoolean { condition: condition.clone() }),
                Err(e) => Err(TemplateError::Script(e)),
            }
        },
        Directive::IfElse { condition, if_blocks, else_blocks } => {
            let ans = ctx.eval(condition.as_str());
            let ghost c1 = *ctx;
            proof {
                lemma_advanced_push(c0, c1, c1.steps().last(), *read);
            }
            match ans {
                Ok(ScriptValue::Boolean(b)) => {
                    let r = if b {
                        generate_from(cfg, if_blocks, 0, ctx, read, depth)
                    } else {
                        generate_from(cfg, else_blocks, 0, ctx, read, depth)
                    };
                    proof {
                        lemma_advanced_trans(c0, c1, *ctx, *read);
                        assert(added(ctx.steps(), c0.steps()).skip(1) =~= added(ctx.steps(), c1.steps()));
                        assert(seq_view(if_blocks@).skip(0) =~= seq_view(if_blocks@));
                        assert(seq_view(else_blocks@).skip(0) =~= seq_view(else_blocks@));
                    }
                    r
                },
                Ok(_) => Err(TemplateError::NotBoolean { condition: condition.clone() }),
                Err(e) => Err(TemplateError::Script(e)),
            }
        },
        Directive::Include { path } => {
            if depth == 0 {
                return Err(TemplateError::TooDeep { path: path.clone() });
            }
            let p = path.as_str();
            let text = read(p);
            proof {
                assert(read.ensures((p,), text) && p@ == path@ && text_of(text) == text_of(text));
            }
            let parsed = match &text {
                Err(why) => Err(TemplateError::Io { path: path.clone(), reason: why.clone() }),
                Ok(x) => match parse_template_str(cfg, x.as_str()) {
                    Ok(b) => Ok(b),
                    Err(e) => Err(TemplateError::Parse(e)),
                },
            };
            match parsed {
                Ok(nested_blocks) => {
                    let mut nested = ScriptContext::new();
                    let ghost n0 = nested;
                    let r = generate_from(cfg, &nested_blocks, 0, &mut nested, read, depth - 1);
                    let ghost inner = nested.steps();
                    proof {
                        assert(added(inner, n0.steps()) =~= inner);
                        assert(seq_view(nested_blocks@).skip(0) =~= seq_view(nested_blocks@));
                    }
                    ctx.record_read(path.as_str(), &text, Ghost(inner));
                    proof {
                        let s = Step::Read { path: path@, text: text_of(text), nested: inner };
                        lemma_advanced_push(c0, *ctx, s, *read);
                    }
                    r
                },
                Err(e) => {
                    ctx.record_read(path.as_str(), &text, Ghost(Seq::empty()));
                    proof {
                        let s = Step::Read {
                            path: path@,
                            text: text_of(text),
                            nested: Seq::empty(),
                        };
                        assert(reads_honest(Seq::<Step>::empty(), *read));
                        lemma_advanced_push(c0, *ctx, s, *read);
                    }
                    Err(e)
                },
            }
        },
        Directive::Transform { input_name, transform, blocks } => {
            let body = generate_from(cfg, blocks, 0, ctx, read, depth);
            let ghost cb = *ctx;
            proof {
                assert(seq_view(blocks@).skip(0) =~= seq_view(blocks@));
            }
            let value = match body {
                Ok(v) => v,
                Err(e) => {
                    return Err(e);
                },
            };
            let r = run_transform_script(ctx, input_name.as_str(), transform.as_str(), value.as_str(), read);
            proof {
                let tb = added(cb.steps(), c0.steps());
                lemma_advanced_trans(c0, cb, *ctx, *read);
                lemma_frame_seq(cfg@, seq_view(blocks@), tb, added(ctx.steps(), cb.steps()), depth as nat);
                assert(added(ctx.steps(), c0.steps()).skip(tb.len() as int) =~= added(ctx.steps(), cb.steps()));
            }
            r
        },
    }
}

/// The end of a transform: binds `value` to `name`, evaluates `script`, and
/// unbinds `name` again once the binding was made, whatever the script gave.
fn run_transform_script<F: Fn(&str) -> Result<String, String>>(
    ctx: &mut ScriptContext,
    name: &str,
    script: &str,
    value: &str,
    read: &F,
) -> (r: Result<String, TemplateError>)
    ensures
        advanced(*old(ctx), *final(ctx), *read),
        transform_tail(name@, script@, value@, added(final(ctx).steps(), old(ctx).steps()), 0)
            == outcome_of(r, added(final(ctx).steps(), old(ctx).steps()).len()),
{
    let ghost c0 = *ctx;
    let bound = ctx.bind(name, value);
    let ghost c1 = *ctx;
    proof {
        lemma_advanced_push(c0, c1, c1.steps().last(), *read);
    }
    if let Err(e) = bound {
        return Err(TemplateError::Script(e));
    }
    let ans = ctx.eval(script);
    let ghost c2 = *ctx;
    proof {
        lemma_advanced_push(c1, c2, c2.steps().last(), *read);
        lemma_advanced_trans(c0, c1, c2, *read);
    }
    let unbound = ctx.unbind(name);
    proof {
        lemma_advanced_push(c2, *ctx, ctx.steps().last(), *read);
        lemma_advanced_trans(c0, c2, *ctx, *read);
        assert(added(ctx.steps(), c0.steps()) =~= seq![
            Step::Interp(Event::Bind { name: name@, value: value@, ok: true }),
            Step::Interp(Event::Eval { code: script@, answer: crate::script::answer_of(ans) }),
            Step::Interp(Event::Unbind { name: name@, ok: unbound is Ok }),
        ]);
    }
    match ans {
        Ok(ScriptValue::Text(x)) => match unbound {
            Ok(()) => Ok(x),
            Err(e) => Err(TemplateError::Script(e)),
        },
        Ok(_) => Err(TemplateError::NotText { script: String::from_str(script) }),
        Err(e) => Err(TemplateError::Script(e)),
    }
}

fn generate_from<F: Fn(&str) -> Result<String, String>>(
    cfg: &ParserConfig,
    ds: &Vec<Directive>,
    i: usize,
    ctx: &mut ScriptContext,
    read: &F,
    depth: usize,
) -> (r: Result<String, TemplateError>)
    requires
        i <= ds@.len(),
        forall|p: &str| read.requires((p,)),
    ensures
        advanced(*old(ctx), *final(ctx), *read),
        eval_seq(
            cfg@,
            seq_view(ds@).skip(i as int),
            added(final(ctx).steps(), old(ctx).steps()),
            depth as nat,
        ) == outcome_of(r, added(final(ctx).steps(), old(ctx).steps()).len()),
    decreases depth, ds, ds@.len() - i,
{
    proof {
        lemma_seq_view(ds@);
    }
    let ghost c0 = *ctx;
    if i >= ds.len() {
        proof {
            lemma_advanced_refl(c0, *read);
            assert(seq_view(ds@).skip(i as int) =~= Seq::<DirSpec>::empty());
        }
        return Ok(String::new());
    }
    let first = generate_one(cfg, &ds[i], ctx, read, depth);
    let ghost c1 = *ctx;
    proof {
        assert(seq_view(ds@).skip(i as int)[0] == dir_view(ds@[i as int]));
        assert(seq_view(ds@).skip(i as int).drop_first() =~= seq_view(ds@).skip(i + 1));
    }
    let out = match first {
        Ok(o) => o,
        Err(e) => {
            return Err(e);
        },
    };
    let rest = generate_from(cfg, ds, i + 1, ctx, read, depth);
    proof {
        let t1 = added(c1.steps(), c0.steps());
        let t2 = added(ctx.steps(), c1.steps());
        lemma_advanced_trans(c0, c1, *ctx, *read);
        lemma_frame_one(cfg@, dir_view(ds@[i as int]), t1, t2, depth as nat);
        if t1.len() == 0 {
            assert(t1 + t2 =~= t2);
        } else {
            assert((t1 + t2).skip(t1.len() as int) =~= t2);
        }
    }
    match rest {
        Ok(more) => Ok(out.concat(more.as_str())),
        Err(e) => Err(e),
    }
}

/// Generates the output of a directive sequence in the context `ctx`,
/// reading nested template files through `read`. The steps appended to the
/// context's record are exactly those that the evaluation used, and the result
/// is what `eval_seq` gives for them.
pub fn generate<F: Fn(&str) -> Result<String, String>>(
    cfg: &ParserConfig,
    ds: &Vec<Directive>,
    ctx: &mut ScriptContext,
    read: &F,
) -> (r: Result<String, TemplateError>)
    requires
        forall|p: &str| read.requires((p,)),
    ensures
        advanced(*old(ctx), *final(ctx), *read),
        eval_seq(
            cfg@,
            seq_view(ds@),
            added(final(ctx).steps(), old(ctx).steps()),
            MAX_NESTING as nat,
        ) == outcome_of(r, added(final(ctx).steps(), old(ctx).steps()).len()),
{
    proof {
        assert(seq_view(ds@).skip(0) =~= seq_view(ds@));
    }
    generate_from(cfg, ds, 0, ctx, read, MAX_NESTING)
}

} // verus!
