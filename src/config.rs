//! The token table that fixes a template's concrete syntax.

use vstd::prelude::*;
use crate::text::chars_of;

verus! {

/// Delimiters and keywords of the template syntax. It is read-only during a
/// parse and shared unchanged by every nested block.
#[derive(Debug, PartialEq, Eq)]
pub struct ParserConfig {
    pub odelim: String,
    pub cdelim: String,
    pub comment: String,
    pub if_: String,
    pub else_: String,
    pub end: String,
    pub include_: String,
    pub transform: String,
    pub to: String,
}

impl Clone for ParserConfig {
    fn clone(&self) -> (r: ParserConfig)
        ensures
            r == *self,
    {
        ParserConfig {
            odelim: self.odelim.clone(),
            cdelim: self.cdelim.clone(),
            comment: self.comment.clone(),
            if_: self.if_.clone(),
            else_: self.else_.clone(),
            end: self.end.clone(),
            include_: self.include_.clone(),
            transform: self.transform.clone(),
            to: self.to.clone(),
        }
    }
}

/// The tokens of a `ParserConfig`, as character sequences.
pub struct ConfigView {
    pub odelim: Seq<char>,
    pub cdelim: Seq<char>,
    pub comment: Seq<char>,
    pub if_: Seq<char>,
    pub else_: Seq<char>,
    pub end: Seq<char>,
    pub include_: Seq<char>,
    pub transform: Seq<char>,
    pub to: Seq<char>,
}

impl View for ParserConfig {
    type V = ConfigView;

    open spec fn view(&self) -> ConfigView {
        ConfigView {
            odelim: self.odelim@,
            cdelim: self.cdelim@,
            comment: self.comment@,
            if_: self.if_@,
            else_: self.else_@,
            end: self.end@,
            include_: self.include_@,
            transform: self.transform@,
            to: self.to@,
        }
    }
}

/// `!!%` and `%!!` as delimiters, `##` as comment marker, and the keywords
/// `if`, `else`, `end`, the keyword of a nested template file, `transform`
/// and `to`.
pub open spec fn is_default(c: ConfigView) -> bool {
    &&& c.odelim == "!!%"@
    &&& c.cdelim == "%!!"@
    &&& c.comment == "##"@
    &&& c.if_ == "if"@
    &&& c.else_ == "else"@
    &&& c.end == "end"@
    &&& c.include_ == "inc"@ + "lude"@
    &&& c.transform == "transform"@
    &&& c.to == "to"@
}

impl Default for ParserConfig {
    fn default() -> (r: ParserConfig)
        ensures
            is_default(r@),
    {
        ParserConfig {
            odelim: String::from_str("!!%"),
            cdelim: String::from_str("%!!"),
            comment: String::from_str("##"),
            if_: String::from_str("if"),
            else_: String::from_str("else"),
            end: String::from_str("end"),
            include_: String::from_str("inc").concat("lude"),
            transform: String::from_str("transform"),
            to: String::from_str("to"),
        }
    }
}

/// The tokens that the parser matches, held as characters.
pub struct Tokens {
    pub odelim: Vec<char>,
    pub cdelim: Vec<char>,
    pub if_: Vec<char>,
    pub else_: Vec<char>,
    pub end: Vec<char>,
    pub include_: Vec<char>,
    pub transform: Vec<char>,
    pub to: Vec<char>,
}

impl Tokens {
    /// The tokens hold exactly the strings of `c`.
    pub open spec fn of(&self, c: ConfigView) -> bool {
        &&& self.odelim@ == c.odelim
        &&& self.cdelim@ == c.cdelim
        &&& self.if_@ == c.if_
        &&& self.else_@ == c.else_
        &&& self.end@ == c.end
        &&& self.include_@ == c.include_
        &&& self.transform@ == c.transform
        &&& self.to@ == c.to
    }

    pub fn new(c: &ParserConfig) -> (r: Tokens)
        ensures
            r.of(c@),
    {
        Tokens {
            odelim: chars_of(c.odelim.as_str()),
            cdelim: chars_of(c.cdelim.as_str()),
            if_: chars_of(c.if_.as_str()),
            else_: chars_of(c.else_.as_str()),
            end: chars_of(c.end.as_str()),
            include_: chars_of(c.include_.as_str()),
            transform: chars_of(c.transform.as_str()),
            to: chars_of(c.to.as_str()),
        }
    }
}

} // verus!
