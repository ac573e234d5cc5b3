//! General laws of parsing and evaluation, proved over the spec functions
//! that the parser's and the evaluator's contracts are stated with.

use vstd::prelude::*;
use crate::config::ConfigView;
use crate::directive::DirSpec;
use crate::eval::{Outcome, eval_one, eval_seq, shift};
use crate::parser::{
    block, blocks, if_rule, ifelse_rule, open_delim, parse_spec, payload_tag, text_run,
    transform_rule, transform_tag,
};
use crate::script::{Answer, Event, Step, interp_events, lemma_interp_events_single};
use crate::text::{contains, lemma_next_at_absent, next_at, starts_at, trim_end_blank};

verus! {

broadcast use vstd::seq::group_seq_axioms;

/// The directives of a text in which the opening delimiter never occurs:
/// nothing, or one text run.
pub open spec fn plain_directives(s: Seq<char>) -> Seq<DirSpec> {
    if s.len() == 0 {
        Seq::empty()
    } else {
        seq![DirSpec::Text(trim_end_blank(s))]
    }
}

proof fn lemma_no_directive_at(c: ConfigView, s: Seq<char>, i: int)
    requires
        !contains(s, c.odelim),
    ensures
        open_delim(c, s, i) is None,
        payload_tag(c, s, i, c.include_) is None,
        if_rule(c, s, i) is None,
        ifelse_rule(c, s, i) is None,
        transform_rule(c, s, i) is None,
{
    let j = crate::text::skip_blank(s, i);
    assert(!starts_at(s, j, c.odelim));
    assert(payload_tag(c, s, i, c.if_) is None);
    assert(transform_tag(c, s, i) is None);
}

/// A template without directives, that is one in which the opening delimiter
/// never occurs, parses to its text with trailing spaces and tabs removed, and
/// generates exactly that text, without any exchange with the interpreter.
pub proof fn lemma_plain_text_round_trip(c: ConfigView, s: Seq<char>, t: Seq<Step>, depth: nat)
    requires
        !contains(s, c.odelim),
    ensures
        parse_spec(c, s) == Ok::<Seq<DirSpec>, Seq<char>>(plain_directives(s)),
        eval_seq(c, plain_directives(s), t, depth) == (Outcome::Done {
            out: trim_end_blank(s),
            used: 0,
        }),
{
    let n = s.len() as int;
    lemma_no_directive_at(c, s, 0);
    lemma_no_directive_at(c, s, n);
    lemma_next_at_absent(s, 0, c.odelim);
    lemma_next_at_absent(s, n, c.odelim);
    assert(text_run(c, s, n) is None);
    assert(block(c, s, n) is None);
    assert(blocks(c, s, n) == Some((n, Seq::<DirSpec>::empty())));
    if n > 0 {
        assert(s.subrange(0, n) =~= s);
        assert(block(c, s, 0) == Some((n, DirSpec::Text(trim_end_blank(s)))));
        assert(seq![DirSpec::Text(trim_end_blank(s))] + Seq::<DirSpec>::empty() =~= plain_directives(s));
        assert(plain_directives(s).drop_first() =~= Seq::<DirSpec>::empty());
        assert(trim_end_blank(s) + Seq::<char>::empty() =~= trim_end_blank(s));
        let x = trim_end_blank(s);
        assert(plain_directives(s)[0] == DirSpec::Text(x));
        assert(eval_one(c, DirSpec::Text(x), t, depth) == (Outcome::Done { out: x, used: 0 }));
        assert(eval_seq(c, Seq::<DirSpec>::empty(), t, depth) == (Outcome::Done {
            out: Seq::empty(),
            used: 0,
        }));
    } else {
        assert(block(c, s, 0) is None);
        assert(trim_end_blank(s) =~= Seq::<char>::empty());
    }
}

/// An `if` whose condition evaluates to `true` outputs what its body outputs
/// on the following exchanges; one whose condition evaluates to `false`
/// outputs nothing, and its body has no exchange at all.
pub proof fn lemma_if_follows_condition(
    c: ConfigView,
    cond: Seq<char>,
    body: Seq<DirSpec>,
    t: Seq<Step>,
    depth: nat,
    b: bool,
)
    requires
        t.len() > 0,
        t[0] == Step::Interp(Event::Eval { code: cond, answer: Answer::Boolean(b) }),
    ensures
        eval_one(c, DirSpec::If(cond, body), t, depth) == if b {
            shift(eval_seq(c, body, t.skip(1), depth), 1)
        } else {
            Outcome::Done { out: Seq::empty(), used: 1 }
        },
{
}

/// An `if`/`else` evaluates its condition and then exactly one branch: the
/// output and the exchanges after the condition are those of the chosen
/// branch alone, so nothing in the other branch ever runs.
pub proof fn lemma_ifelse_runs_one_branch(
    c: ConfigView,
    cond: Seq<char>,
    yes: Seq<DirSpec>,
    no: Seq<DirSpec>,
    t: Seq<Step>,
    depth: nat,
    b: bool,
)
    requires
        t.len() > 0,
        t[0] == Step::Interp(Event::Eval { code: cond, answer: Answer::Boolean(b) }),
    ensures
        eval_one(c, DirSpec::IfElse(cond, yes, no), t, depth) == shift(
            eval_seq(c, if b { yes } else { no }, t.skip(1), depth),
            1,
        ),
{
}

/// A transform that succeeds ends by removing its binding: its last three
/// exchanges bind the body's output to the name, run the script, and set the
/// name to nil again, so nothing evaluated after it sees the bound value.
pub proof fn lemma_transform_unbinds(
    c: ConfigView,
    name: Seq<char>,
    script: Seq<char>,
    body: Seq<DirSpec>,
    t: Seq<Step>,
    depth: nat,
)
    requires
        eval_one(c, DirSpec::Transform(name, script, body), t, depth) is Done,
    ensures
        ({
            let u = eval_one(c, DirSpec::Transform(name, script, body), t, depth)->Done_used;
            let value = eval_seq(c, body, t, depth)->Done_out;
            &&& 3 <= u <= t.len()
            &&& t[u - 3] == Step::Interp(Event::Bind { name, value, ok: true })
            &&& t[u - 2] is Interp && t[u - 2]->Interp_0 is Eval && t[u - 2]->Interp_0->Eval_code
                == script
            &&& t[u - 1] == Step::Interp(Event::Unbind { name, ok: true })
        }),
{
    let used = eval_seq(c, body, t, depth)->Done_used;
    let rest = t.skip(used as int);
    assert(rest[0] == t[used as int]);
    assert(rest[1] == t[used + 1int]);
    assert(rest[2] == t[used + 2int]);
}

/// A transform whose blocks output `value`, whose script answers the text `r`
/// with `value` bound to its name, and whose name is then unset, outputs `r`:
/// the binding is set before the script and removed right after it.
pub proof fn lemma_transform_result(
    c: ConfigView,
    name: Seq<char>,
    script: Seq<char>,
    body: Seq<DirSpec>,
    t: Seq<Step>,
    depth: nat,
    value: Seq<char>,
    u: nat,
    r: Seq<char>,
)
    requires
        eval_seq(c, body, t, depth) == (Outcome::Done { out: value, used: u }),
        u + 3 <= t.len(),
        t[u as int] == Step::Interp(Event::Bind { name, value, ok: true }),
        t[u + 1int] == Step::Interp(Event::Eval { code: script, answer: Answer::Text(r) }),
        t[u + 2int] == Step::Interp(Event::Unbind { name, ok: true }),
    ensures
        eval_one(c, DirSpec::Transform(name, script, body), t, depth) == (Outcome::Done {
            out: r,
            used: u + 3,
        }),
{
    let rest = t.skip(u as int);
    assert(rest[0] == t[u as int]);
    assert(rest[1] == t[u + 1int]);
    assert(rest[2] == t[u + 2int]);
}

/// A nested template file leaves the context around it alone: the file is
/// read in one step, which is no exchange with this context's interpreter,
/// and the nested run's steps stand inside that step, all of them used.
pub proof fn lemma_nested_file_runs_apart(
    c: ConfigView,
    path: Seq<char>,
    t: Seq<Step>,
    depth: nat,
)
    requires
        depth > 0,
        !(eval_one(c, DirSpec::Include(path), t, depth) is Stuck),
    ensures
        ({
            let o = eval_one(c, DirSpec::Include(path), t, depth);
            &&& o is Done ==> o->Done_used == 1
            &&& o is Failed ==> o->Failed_used == 1
            &&& t[0] is Read && t[0]->Read_path == path
            &&& interp_events(t.take(1)) == Seq::<Event>::empty()
        }),
{
    assert(t.take(1) =~= seq![t[0]]);
    lemma_interp_events_single(t[0]);
}

} // verus!
