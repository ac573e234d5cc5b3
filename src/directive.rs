//! The directive tree that a parse produces and an evaluation walks.

use vstd::prelude::*;

verus! {

broadcast use vstd::seq::group_seq_axioms, vstd::std_specs::vec::group_vec_axioms;

/// One unit of the template language. Each subtree has exactly one parent;
/// bodies keep source order.
#[derive(Debug, PartialEq, Eq)]
pub enum Directive {
    /// Literal text, copied to the output unchanged.
    Text(String),
    /// Its blocks are generated when the condition evaluates to `true`.
    If { condition: String, blocks: Vec<Directive> },
    /// Exactly one of the two bodies is generated, by the condition.
    IfElse { condition: String, if_blocks: Vec<Directive>, else_blocks: Vec<Directive> },
    /// The output of another template file, run in a context of its own.
    Include { path: String },
    /// The blocks' output, bound to `input_name`, is replaced by what the
    /// script `transform` returns.
    Transform { input_name: String, transform: String, blocks: Vec<Directive> },
}

/// The mathematical form of a directive.
pub enum DirSpec {
    Text(Seq<char>),
    If(Seq<char>, Seq<DirSpec>),
    IfElse(Seq<char>, Seq<DirSpec>, Seq<DirSpec>),
    Include(Seq<char>),
    Transform(Seq<char>, Seq<char>, Seq<DirSpec>),
}

pub open spec fn dir_view(d: Directive) -> DirSpec
    decreases d,
{
    match d {
        Directive::Text(t) => DirSpec::Text(t@),
        Directive::If { condition, blocks } => DirSpec::If(condition@, seq_view(blocks@)),
        Directive::IfElse { condition, if_blocks, else_blocks } => DirSpec::IfElse(
            condition@,
            seq_view(if_blocks@),
            seq_view(else_blocks@),
        ),
        Directive::Include { path } => DirSpec::Include(path@),
        Directive::Transform { input_name, transform, blocks } => DirSpec::Transform(
            input_name@,
            transform@,
            seq_view(blocks@),
        ),
    }
}

pub open spec fn seq_view(ds: Seq<Directive>) -> Seq<DirSpec>
    decreases ds,
{
    if ds.len() == 0 {
        Seq::empty()
    } else {
        seq![dir_view(ds[0])] + seq_view(ds.drop_first())
    }
}

impl View for Directive {
    type V = DirSpec;

    open spec fn view(&self) -> DirSpec {
        dir_view(*self)
    }
}

} // verus!
