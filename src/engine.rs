//! The engine: parse a template, give it a fresh scripting context, and
//! evaluate it.

use vstd::prelude::*;
use crate::config::{ParserConfig, is_default};
use crate::directive::{Directive, seq_view};
use crate::eval::{MAX_NESTING, TemplateError, added, eval_seq, generate, outcome_of, reads_honest};
use crate::parser::{ParseError, parse_spec, parse_template_str};
use crate::script::{ScriptContext, Step};

verus! {

/// A parsed template, bound to the syntax it was parsed with.
pub struct Template {
    pub parser_config: ParserConfig,
    pub blocks: Vec<Directive>,
}

impl Template {
    /// Parses `template_str` with `config`.
    pub fn from_str(config: &ParserConfig, template_str: &str) -> (r: Result<Template, ParseError>)
        ensures
            match parse_spec(config@, template_str@) {
                Ok(ds) => r matches Ok(t) && t.parser_config == *config && seq_view(t.blocks@) == ds,
                Err(rest) => r matches Err(e) && e.remaining@ == rest,
            },
    {
        let blocks = parse_template_str(config, template_str)?;
        Ok(Template { parser_config: config.clone(), blocks })
    }

    /// Evaluates the template in a new scripting context, reading nested
    /// template files through `read`: the result is what `eval_seq` gives for
    /// the exchanges that the evaluation had.
    pub fn process<F: Fn(&str) -> Result<String, String>>(&self, read: &F) -> (r: Result<
        String,
        TemplateError,
    >)
        requires
            forall|p: &str| read.requires((p,)),
        ensures
            exists|t: Seq<Step>|
                reads_honest(t, *read) && eval_seq(
                    self.parser_config@,
                    seq_view(self.blocks@),
                    t,
                    MAX_NESTING as nat,
                ) == outcome_of(r, t.len()),
    {
        let mut ctx = ScriptContext::new();
        let ghost before = ctx.steps();
        let r = generate(&self.parser_config, &self.blocks, &mut ctx, read);
        proof {
            let t = added(ctx.steps(), before);
            assert(reads_honest(t, *read) && eval_seq(
                self.parser_config@,
                seq_view(self.blocks@),
                t,
                MAX_NESTING as nat,
            ) == outcome_of(r, t.len()));
        }
        r
    }
}

/// Runs templates written in the syntax of one `ParserConfig`. Nested
/// template files are run by the same engine, each in a context of its own.
pub struct Trebuchet {
    pub config: ParserConfig,
}

impl Default for Trebuchet {
    fn default() -> (r: Trebuchet)
        ensures
            is_default(r.config@),
    {
        Trebuchet { config: ParserConfig::default() }
    }
}

impl Trebuchet {
    pub fn new(parser_config: ParserConfig) -> (r: Trebuchet)
        ensures
            r.config == parser_config,
    {
        Trebuchet { config: parser_config }
    }

    /// Parses `template_str` and evaluates it in a new scripting context,
    /// reading nested template files through `read`. A malformed template
    /// gives the parse error; otherwise the result is what `eval_seq` gives
    /// for the exchanges that the evaluation had with the interpreter and the
    /// reader.
    pub fn process_template_str<F: Fn(&str) -> Result<String, String>>(
        &self,
        template_str: &str,
        read: &F,
    ) -> (r: Result<String, TemplateError>)
        requires
            forall|p: &str| read.requires((p,)),
        ensures
            match parse_spec(self.config@, template_str@) {
                Err(rest) => r matches Err(TemplateError::Parse(e)) && e.remaining@ == rest,
                Ok(ds) => exists|t: Seq<Step>|
                    reads_honest(t, *read) && eval_seq(self.config@, ds, t, MAX_NESTING as nat)
                        == outcome_of(r, t.len()),
            },
    {
        match Template::from_str(&self.config, template_str) {
            Ok(t) => t.process(read),
            Err(e) => Err(TemplateError::Parse(e)),
        }
    }

    /// The engine's entry point: the output of the template `input`.
    pub fn run<F: Fn(&str) -> Result<String, String>>(&self, input: &str, read: &F) -> (r: Result<
        String,
        TemplateError,
    >)
        requires
            forall|p: &str| read.requires((p,)),
        ensures
            match parse_spec(self.config@, input@) {
                Err(rest) => r matches Err(TemplateError::Parse(e)) && e.remaining@ == rest,
                Ok(ds) => exists|t: Seq<Step>|
                    reads_honest(t, *read) && eval_seq(self.config@, ds, t, MAX_NESTING as nat)
                        == outcome_of(r, t.len()),
            },
    {
        self.process_template_str(input, read)
    }
}

} // verus!
