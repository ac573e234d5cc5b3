//! The template grammar, as spec functions over characters and positions,
//! and a recursive-descent parser proved to compute it.
//!
//! Alternatives are tried in a fixed order (a file inclusion, `if`, `if`/`else`,
//! `transform`, then plain text) and the first that matches wins. Nested
//! blocks end at the nearest enclosing `end` or `else` tag through the
//! recursion alone.

use vstd::prelude::*;
use crate::config::{ConfigView, ParserConfig, Tokens};
use crate::directive::{DirSpec, Directive, dir_view, seq_view};
use crate::text::{
    chars_of, is_blank_char, next_at_pos, skip_alnum_pos, skip_blank_pos, slice_string,
    slice_trim_end_blank, slice_trimmed, starts_at_pos, is_blank, next_at, skip_alnum, skip_blank, starts_at, trim_end_blank, trim_white,
};

verus! {

broadcast use vstd::seq::group_seq_axioms;

// ---------------------------------------------------------------------------
// The grammar
// ---------------------------------------------------------------------------

/// An opening delimiter, with spaces and tabs on both sides.
pub open spec fn open_delim(c: ConfigView, s: Seq<char>, i: int) -> Option<int> {
    let j = skip_blank(s, i);
    if starts_at(s, j, c.odelim) {
        Some(skip_blank(s, j + c.odelim.len()))
    } else {
        None
    }
}

/// A closing delimiter, with spaces and tabs on both sides and at most one
/// newline after them.
pub open spec fn close_delim(c: ConfigView, s: Seq<char>, i: int) -> Option<int> {
    let j = skip_blank(s, i);
    if starts_at(s, j, c.cdelim) {
        let k = skip_blank(s, j + c.cdelim.len());
        if k < s.len() && s[k] == '\n' {
            Some(k + 1)
        } else {
            Some(k)
        }
    } else {
        None
    }
}

/// A tag that holds the word `w` alone, such as `end`, `else` or `to`.
pub open spec fn word_tag(c: ConfigView, s: Seq<char>, i: int, w: Seq<char>) -> Option<int> {
    match open_delim(c, s, i) {
        Some(o) => if starts_at(s, o, w) {
            close_delim(c, s, o + w.len())
        } else {
            None
        },
        None => None,
    }
}

/// A tag that holds the keyword `kw`, a space or tab, and a payload that runs
/// up to the closing delimiter; the payload comes back trimmed.
pub open spec fn payload_tag(c: ConfigView, s: Seq<char>, i: int, kw: Seq<char>) -> Option<
    (int, Seq<char>),
> {
    match open_delim(c, s, i) {
        Some(o) => {
            let p = o + kw.len();
            if starts_at(s, o, kw) && p < s.len() && is_blank(s[p]) {
                let k = next_at(s, p, c.cdelim);
                match close_delim(c, s, k) {
                    Some(e) => Some((e, trim_white(s.subrange(p, k)))),
                    None => None,
                }
            } else {
                None
            }
        },
        None => None,
    }
}

/// The opening tag of a transform: its keyword, blanks, and the binding
/// name, made of ASCII letters and digits.
pub open spec fn transform_tag(c: ConfigView, s: Seq<char>, i: int) -> Option<(int, Seq<char>)> {
    match open_delim(c, s, i) {
        Some(o) => {
            let p = o + c.transform.len();
            let q = skip_blank(s, p);
            let a = skip_alnum(s, q);
            if starts_at(s, o, c.transform) && p < q && q < a {
                match close_delim(c, s, a) {
                    Some(e) => Some((e, s.subrange(q, a))),
                    None => None,
                }
            } else {
                None
            }
        },
        None => None,
    }
}

/// A non-empty run of text up to the next opening delimiter, with its
/// trailing spaces and tabs removed.
pub open spec fn text_run(c: ConfigView, s: Seq<char>, i: int) -> Option<(int, Seq<char>)> {
    let k = next_at(s, i, c.odelim);
    if i < k {
        Some((k, trim_end_blank(s.subrange(i, k))))
    } else {
        None
    }
}

/// One block at position `i`: the first alternative that matches.
pub open spec fn block(c: ConfigView, s: Seq<char>, i: int) -> Option<(int, DirSpec)>
    decreases s.len() - i, 1int,
{
    match payload_tag(c, s, i, c.include_) {
        Some((e, p)) => Some((e, DirSpec::Include(p))),
        None => match if_rule(c, s, i) {
            Some(r) => Some(r),
            None => match ifelse_rule(c, s, i) {
                Some(r) => Some(r),
                None => match transform_rule(c, s, i) {
                    Some(r) => Some(r),
                    None => match text_run(c, s, i) {
                        Some((k, t)) => Some((k, DirSpec::Text(t))),
                        None => None,
                    },
                },
            },
        },
    }
}

/// `if` tag, blocks, `end` tag.
pub open spec fn if_rule(c: ConfigView, s: Seq<char>, i: int) -> Option<(int, DirSpec)>
    decreases s.len() - i, 0int,
{
    match payload_tag(c, s, i, c.if_) {
        Some((j, cond)) => if i < j <= s.len() {
            match blocks(c, s, j) {
                Some((k, body)) => match word_tag(c, s, k, c.end) {
                    Some(e) => Some((e, DirSpec::If(cond, body))),
                    None => None,
                },
                None => None,
            }
        } else {
            None
        },
        None => None,
    }
}

/// `if` tag, blocks, `else` tag, blocks, `end` tag.
pub open spec fn ifelse_rule(c: ConfigView, s: Seq<char>, i: int) -> Option<(int, DirSpec)>
    decreases s.len() - i, 0int,
{
    match payload_tag(c, s, i, c.if_) {
        Some((j, cond)) => if i < j <= s.len() {
            match blocks(c, s, j) {
                Some((k, a)) => match word_tag(c, s, k, c.else_) {
                    Some(m) => if i < m <= s.len() {
                        match blocks(c, s, m) {
                            Some((n, b)) => match word_tag(c, s, n, c.end) {
                                Some(e) => Some((e, DirSpec::IfElse(cond, a, b))),
                                None => None,
                            },
                            None => None,
                        }
                    } else {
                        None
                    },
                    None => None,
                },
                None => None,
            }
        } else {
            None
        },
        None => None,
    }
}

/// `transform` tag, script text, `to` tag, blocks, `end` tag.
pub open spec fn transform_rule(c: ConfigView, s: Seq<char>, i: int) -> Option<(int, DirSpec)>
    decreases s.len() - i, 0int,
{
    match transform_tag(c, s, i) {
        Some((j, name)) => {
            let k = next_at(s, j, c.odelim);
            if i < j < k {
                match word_tag(c, s, k, c.to) {
                    Some(m) => if i < m <= s.len() {
                        match blocks(c, s, m) {
                            Some((n, body)) => match word_tag(c, s, n, c.end) {
                                Some(e) => Some(
                                    (
                                        e,
                                        DirSpec::Transform(
                                            name,
                                            trim_end_blank(s.subrange(j, k)),
                                            body,
                                        ),
                                    ),
                                ),
                                None => None,
                            },
                            None => None,
                        }
                    } else {
                        None
                    },
                    None => None,
                }
            } else {
                None
            }
        },
        None => None,
    }
}

/// As many blocks as match from position `i` on, and the position after them.
pub open spec fn blocks(c: ConfigView, s: Seq<char>, i: int) -> Option<(int, Seq<DirSpec>)>
    decreases s.len() - i, 2int,
{
    match block(c, s, i) {
        None => Some((i, Seq::empty())),
        Some((j, d)) => if i < j <= s.len() {
            match blocks(c, s, j) {
                Some((k, ds)) => Some((k, seq![d] + ds)),
                None => None,
            }
        } else {
            None
        },
    }
}

/// The directives of a whole template, or the suffix that no block matched.
pub open spec fn parse_spec(c: ConfigView, s: Seq<char>) -> Result<Seq<DirSpec>, Seq<char>> {
    match blocks(c, s, 0) {
        Some((k, ds)) => if k == s.len() {
            Ok(ds)
        } else {
            Err(s.subrange(k, s.len() as int))
        },
        None => Err(s),
    }
}

/// The position where the blocks that match from the start stop.
pub open spec fn unparsed_at(c: ConfigView, s: Seq<char>) -> int {
    match blocks(c, s, 0) {
        Some((k, _)) => k,
        None => 0,
    }
}

/// What a malformed template lacks, where the unparsed suffix opens a block
/// that is never closed: the `to` keyword for a transform whose script no
/// `to` tag follows, the `end` keyword for any other `if` or transform.
/// Nothing (the end of the template was expected) otherwise.
pub open spec fn expected_token(c: ConfigView, s: Seq<char>) -> Option<Seq<char>> {
    let k = unparsed_at(c, s);
    if payload_tag(c, s, k, c.if_) is Some {
        Some(c.end)
    } else {
        match transform_tag(c, s, k) {
            Some((j, _)) => if word_tag(c, s, next_at(s, j, c.odelim), c.to) is Some {
                Some(c.end)
            } else {
                Some(c.to)
            },
            None => None,
        }
    }
}

// ---------------------------------------------------------------------------
// The parser
// ---------------------------------------------------------------------------

/// A template that is not made of complete blocks from start to end.
#[derive(Debug, Clone, PartialEq, Eq)]
pub struct ParseError {
    /// The keyword whose tag was expected, or `None` where the end of the
    /// template was expected.
    pub expected: Option<String>,
    /// The unparsed suffix of the template, from the first position where no
    /// block matched.
    pub remaining: String,
}

impl ParseError {
    /// A one-line description of the error.
    pub fn message(&self) -> (r: String)
        ensures
            r@ == match self.expected {
                Some(kw) => "expected the closing `"@ + kw@ + "` tag of the block at: "@
                    + self.remaining@,
                None => "expected a directive or the end of the template at: "@ + self.remaining@,
            },
    {
        match &self.expected {
            Some(kw) => String::from_str("expected the closing `").concat(kw.as_str()).concat(
                "` tag of the block at: ",
            ).concat(self.remaining.as_str()),
            None => String::from_str("expected a directive or the end of the template at: ").concat(
                self.remaining.as_str(),
            ),
        }
    }
}

spec fn lift(r: Option<usize>) -> Option<int> {
    match r {
        Some(k) => Some(k as int),
        None => None,
    }
}

spec fn lift_text(r: Option<(usize, String)>) -> Option<(int, Seq<char>)> {
    match r {
        Some((k, t)) => Some((k as int, t@)),
        None => None,
    }
}

spec fn lift_dir(r: Option<(usize, Directive)>) -> Option<(int, DirSpec)> {
    match r {
        Some((k, d)) => Some((k as int, dir_view(d))),
        None => None,
    }
}

spec fn lift_dirs(r: Option<(usize, Vec<Directive>)>) -> Option<(int, Seq<DirSpec>)> {
    match r {
        Some((k, ds)) => Some((k as int, seq_view(ds@))),
        None => None,
    }
}

fn open_delim_at(cfg: &ParserConfig, t: &Tokens, s: &Vec<char>, i: usize) -> (r: Option<usize>)
    requires
        t.of(cfg@),
        i <= s@.len(),
    ensures
        lift(r) == open_delim(cfg@, s@, i as int),
        r matches Some(k) ==> i <= k <= s@.len(),
{
    let j = skip_blank_pos(s, i);
    if starts_at_pos(s, j, &t.odelim) {
        Some(skip_blank_pos(s, j + t.odelim.len()))
    } else {
        None
    }
}

fn close_delim_at(cfg: &ParserConfig, t: &Tokens, s: &Vec<char>, i: usize) -> (r: Option<usize>)
    requires
        t.of(cfg@),
        i <= s@.len(),
    ensures
        lift(r) == close_delim(cfg@, s@, i as int),
        r matches Some(k) ==> i <= k <= s@.len(),
{
    let j = skip_blank_pos(s, i);
    if starts_at_pos(s, j, &t.cdelim) {
        let k = skip_blank_pos(s, j + t.cdelim.len());
        if k < s.len() && s[k] == '\n' {
            Some(k + 1)
        } else {
            Some(k)
        }
    } else {
        None
    }
}

fn named_tag_at(cfg: &ParserConfig, t: &Tokens, s: &Vec<char>, i: usize, w: &Vec<char>) -> (r:
    Option<usize>)
    requires
        t.of(cfg@),
        i <= s@.len(),
    ensures
        lift(r) == word_tag(cfg@, s@, i as int, w@),
        r matches Some(k) ==> i <= k <= s@.len(),
{
    match open_delim_at(cfg, t, s, i) {
        Some(o) => if starts_at_pos(s, o, w) {
            close_delim_at(cfg, t, s, o + w.len())
        } else {
            None
        },
        None => None,
    }
}

fn payload_tag_at(
    cfg: &ParserConfig,
    t: &Tokens,
    src: &str,
    s: &Vec<char>,
    i: usize,
    kw: &Vec<char>,
) -> (r: Option<(usize, String)>)
    requires
        t.of(cfg@),
        s@ == src@,
        i <= s@.len(),
    ensures
        lift_text(r) == payload_tag(cfg@, s@, i as int, kw@),
        r matches Some((k, _)) ==> i <= k <= s@.len(),
{
    match open_delim_at(cfg, t, s, i) {
        Some(o) => {
            if !starts_at_pos(s, o, kw) {
                return None;
            }
            let p = o + kw.len();
            if p < s.len() && is_blank_char(s[p]) {
                let k = next_at_pos(s, p, &t.cdelim);
                match close_delim_at(cfg, t, s, k) {
                    Some(e) => Some((e, slice_trimmed(src, s, p, k))),
                    None => None,
                }
            } else {
                None
            }
        },
        None => None,
    }
}

fn transform_line_at(cfg: &ParserConfig, t: &Tokens, src: &str, s: &Vec<char>, i: usize) -> (r:
    Option<(usize, String)>)
    requires
        t.of(cfg@),
        s@ == src@,
        i <= s@.len(),
    ensures
        lift_text(r) == transform_tag(cfg@, s@, i as int),
        r matches Some((k, _)) ==> i <= k <= s@.len(),
{
    match open_delim_at(cfg, t, s, i) {
        Some(o) => {
            if !starts_at_pos(s, o, &t.transform) {
                return None;
            }
            let p = o + t.transform.len();
            let q = skip_blank_pos(s, p);
            let a = skip_alnum_pos(s, q);
            if p < q && q < a {
                match close_delim_at(cfg, t, s, a) {
                    Some(e) => Some((e, slice_string(src, q, a))),
                    None => None,
                }
            } else {
                None
            }
        },
        None => None,
    }
}

fn text_run_at(cfg: &ParserConfig, t: &Tokens, src: &str, s: &Vec<char>, i: usize) -> (r: Option<
    (usize, String),
>)
    requires
        t.of(cfg@),
        s@ == src@,
        i <= s@.len(),
    ensures
        lift_text(r) == text_run(cfg@, s@, i as int),
        r matches Some((k, _)) ==> i <= k <= s@.len(),
{
    let k = next_at_pos(s, i, &t.odelim);
    if i < k {
        Some((k, slice_trim_end_blank(src, s, i, k)))
    } else {
        None
    }
}

fn block_at(cfg: &ParserConfig, t: &Tokens, src: &str, s: &Vec<char>, i: usize) -> (r: Option<
    (usize, Directive),
>)
    requires
        t.of(cfg@),
        s@ == src@,
        i <= s@.len(),
    ensures
        lift_dir(r) == block(cfg@, s@, i as int),
        r matches Some((k, _)) ==> i <= k <= s@.len(),
    decreases s@.len() - i, 1int,
{
    if let Some((e, p)) = payload_tag_at(cfg, t, src, s, i, &t.include_) {
        return Some((e, Directive::Include { path: p }));
    }
    if let Some(r) = if_block_at(cfg, t, src, s, i) {
        return Some(r);
    }
    if let Some(r) = ifelse_block_at(cfg, t, src, s, i) {
        return Some(r);
    }
    if let Some(r) = transform_block_at(cfg, t, src, s, i) {
        return Some(r);
    }
    match text_run_at(cfg, t, src, s, i) {
        Some((k, x)) => Some((k, Directive::Text(x))),
        None => None,
    }
}

fn if_block_at(cfg: &ParserConfig, t: &Tokens, src: &str, s: &Vec<char>, i: usize) -> (r: Option<
    (usize, Directive),
>)
    requires
        t.of(cfg@),
        s@ == src@,
        i <= s@.len(),
    ensures
        lift_dir(r) == if_rule(cfg@, s@, i as int),
        r matches Some((k, _)) ==> i <= k <= s@.len(),
    decreases s@.len() - i, 0int,
{
    let (j, cond) = match payload_tag_at(cfg, t, src, s, i, &t.if_) {
        Some(x) => x,
        None => {
            return None;
        },
    };
    if !(i < j && j <= s.len()) {
        return None;
    }
    let (k, body) = match blocks_at(cfg, t, src, s, j) {
        Some(x) => x,
        None => {
            return None;
        },
    };
    match named_tag_at(cfg, t, s, k, &t.end) {
        Some(e) => Some((e, Directive::If { condition: cond, blocks: body })),
        None => None,
    }
}

fn ifelse_block_at(cfg: &ParserConfig, t: &Tokens, src: &str, s: &Vec<char>, i: usize) -> (r:
    Option<(usize, Directive)>)
    requires
        t.of(cfg@),
        s@ == src@,
        i <= s@.len(),
    ensures
        lift_dir(r) == ifelse_rule(cfg@, s@, i as int),
        r matches Some((k, _)) ==> i <= k <= s@.len(),
    decreases s@.len() - i, 0int,
{
    let (j, cond) = match payload_tag_at(cfg, t, src, s, i, &t.if_) {
        Some(x) => x,
        None => {
            return None;
        },
    };
    if !(i < j && j <= s.len()) {
        return None;
    }
    let (k, a) = match blocks_at(cfg, t, src, s, j) {
        Some(x) => x,
        None => {
            return None;
        },
    };
    let m = match named_tag_at(cfg, t, s, k, &t.else_) {
        Some(x) => x,
        None => {
            return None;
        },
    };
    if !(i < m && m <= s.len()) {
        return None;
    }
    let (n, b) = match blocks_at(cfg, t, src, s, m) {
        Some(x) => x,
        None => {
            return None;
        },
    };
    match named_tag_at(cfg, t, s, n, &t.end) {
        Some(e) => Some((e, Directive::IfElse { condition: cond, if_blocks: a, else_blocks: b })),
        None => None,
    }
}

fn transform_block_at(cfg: &ParserConfig, t: &Tokens, src: &str, s: &Vec<char>, i: usize) -> (r:
    Option<(usize, Directive)>)
    requires
        t.of(cfg@),
        s@ == src@,
        i <= s@.len(),
    ensures
        lift_dir(r) == transform_rule(cfg@, s@, i as int),
        r matches Some((k, _)) ==> i <= k <= s@.len(),
    decreases s@.len() - i, 0int,
{
    let (j, name) = match transform_line_at(cfg, t, src, s, i) {
        Some(x) => x,
        None => {
            return None;
        },
    };
    let k = next_at_pos(s, j, &t.odelim);
    if !(i < j && j < k) {
        return None;
    }
    let m = match named_tag_at(cfg, t, s, k, &t.to) {
        Some(x) => x,
        None => {
            return None;
        },
    };
    if !(i < m && m <= s.len()) {
        return None;
    }
    let (n, body) = match blocks_at(cfg, t, src, s, m) {
        Some(x) => x,
        None => {
            return None;
        },
    };
    match named_tag_at(cfg, t, s, n, &t.end) {
        Some(e) => {
            let script = slice_trim_end_blank(src, s, j, k);
            Some((e, Directive::Transform { input_name: name, transform: script, blocks: body }))
        },
        None => None,
    }
}

fn blocks_at(cfg: &ParserConfig, t: &Tokens, src: &str, s: &Vec<char>, i: usize) -> (r: Option<
    (usize, Vec<Directive>),
>)
    requires
        t.of(cfg@),
        s@ == src@,
        i <= s@.len(),
    ensures
        lift_dirs(r) == blocks(cfg@, s@, i as int),
        r matches Some((k, _)) ==> i <= k <= s@.len(),
    decreases s@.len() - i, 2int,
{
    let (j, d) = match block_at(cfg, t, src, s, i) {
        Some(x) => x,
        None => {
            let empty: Vec<Directive> = Vec::new();
            proof {
                assert(seq_view(empty@) =~= Seq::<DirSpec>::empty());
            }
            return Some((i, empty));
        },
    };
    if !(i < j && j <= s.len()) {
        return None;
    }
    match blocks_at(cfg, t, src, s, j) {
        Some((k, rest)) => {
            let ghost old_rest = rest@;
            let mut all = rest;
            all.insert(0, d);
            proof {
                assert(all@.drop_first() =~= old_rest);
                assert(seq_view(all@) =~= seq![dir_view(d)] + seq_view(old_rest));
            }
            Some((k, all))
        },
        None => None,
    }
}

/// Parses a whole template. It succeeds exactly when the blocks that match
/// from the start reach the end of the text; otherwise the error holds the
/// suffix where no block matched.
pub fn parse_template_str(cfg: &ParserConfig, template: &str) -> (r: Result<
    Vec<Directive>,
    ParseError,
>)
    ensures
        match parse_spec(cfg@, template@) {
            Ok(ds) => r matches Ok(v) && seq_view(v@) == ds,
            Err(rest) => r matches Err(e) && e.remaining@ == rest && match e.expected {
                Some(kw) => expected_token(cfg@, template@) == Some(kw@),
                None => expected_token(cfg@, template@) is None,
            },
        },
{
    let s = chars_of(template);
    let t = Tokens::new(cfg);
    let k = match blocks_at(cfg, &t, template, &s, 0) {
        Some((k, ds)) => {
            if k == s.len() {
                return Ok(ds);
            }
            k
        },
        None => 0,
    };
    let expected = if payload_tag_at(cfg, &t, template, &s, k, &t.if_).is_some() {
        Some(cfg.end.clone())
    } else {
        match transform_line_at(cfg, &t, template, &s, k) {
            Some((j, _)) => {
                let m = next_at_pos(&s, j, &t.odelim);
                if named_tag_at(cfg, &t, &s, m, &t.to).is_some() {
                    Some(cfg.end.clone())
                } else {
                    Some(cfg.to.clone())
                }
            },
            None => None,
        }
    };
    proof {
        assert(s@.subrange(0, s@.len() as int) =~= s@);
    }
    Err(ParseError { expected, remaining: slice_string(template, k, s.len()) })
}

// ---------------------------------------------------------------------------
// The grammar's pieces at the start of an input. Each returns what is left of
// the input after the piece, with the value the piece holds.
// ---------------------------------------------------------------------------

/// An opening delimiter, blanks around it.
pub fn odelim(cfg: &ParserConfig, input: &str) -> (r: Option<String>)
    ensures
        match open_delim(cfg@, input@, 0) {
            Some(k) => r matches Some(rest) && rest@ == input@.subrange(k, input@.len() as int),
            None => r is None,
        },
{
    let s = chars_of(input);
    let t = Tokens::new(cfg);
    match open_delim_at(cfg, &t, &s, 0) {
        Some(k) => Some(slice_string(input, k, s.len())),
        None => None,
    }
}

/// A closing delimiter, blanks around it, and at most one newline.
pub fn cdelim(cfg: &ParserConfig, input: &str) -> (r: Option<String>)
    ensures
        match close_delim(cfg@, input@, 0) {
            Some(k) => r matches Some(rest) && rest@ == input@.subrange(k, input@.len() as int),
            None => r is None,
        },
{
    let s = chars_of(input);
    let t = Tokens::new(cfg);
    match close_delim_at(cfg, &t, &s, 0) {
        Some(k) => Some(slice_string(input, k, s.len())),
        None => None,
    }
}

/// A tag holding the word `name` alone.
pub fn named_tag(cfg: &ParserConfig, input: &str, name: &str) -> (r: Option<String>)
    ensures
        match word_tag(cfg@, input@, 0, name@) {
            Some(k) => r matches Some(rest) && rest@ == input@.subrange(k, input@.len() as int),
            None => r is None,
        },
{
    let s = chars_of(input);
    let t = Tokens::new(cfg);
    let w = chars_of(name);
    match named_tag_at(cfg, &t, &s, 0, &w) {
        Some(k) => Some(slice_string(input, k, s.len())),
        None => None,
    }
}

/// The opening tag of an `if`; the value is its trimmed condition.
pub fn if_line(cfg: &ParserConfig, input: &str) -> (r: Option<(String, String)>)
    ensures
        match payload_tag(cfg@, input@, 0, cfg@.if_) {
            Some((k, v)) => r matches Some((rest, x)) && rest@ == input@.subrange(k, input@.len() as int)
                && x@ == v,
            None => r is None,
        },
{
    let s = chars_of(input);
    let t = Tokens::new(cfg);
    match payload_tag_at(cfg, &t, input, &s, 0, &t.if_) {
        Some((k, x)) => Some((slice_string(input, k, s.len()), x)),
        None => None,
    }
}

/// The opening tag of a transform; the value is its binding name.
pub fn transform_line(cfg: &ParserConfig, input: &str) -> (r: Option<(String, String)>)
    ensures
        match transform_tag(cfg@, input@, 0) {
            Some((k, v)) => r matches Some((rest, x)) && rest@ == input@.subrange(k, input@.len() as int)
                && x@ == v,
            None => r is None,
        },
{
    let s = chars_of(input);
    let t = Tokens::new(cfg);
    match transform_line_at(cfg, &t, input, &s, 0) {
        Some((k, x)) => Some((slice_string(input, k, s.len()), x)),
        None => None,
    }
}

/// A tag that names a nested template file.
pub fn include_block(cfg: &ParserConfig, input: &str) -> (r: Option<(String, Directive)>)
    ensures
        match match payload_tag(cfg@, input@, 0, cfg@.include_) { Some((k, p)) => Some((k, DirSpec::Include(p))), None => None } {
            Some((k, v)) => r matches Some((rest, d)) && rest@ == input@.subrange(k, input@.len() as int)
                && dir_view(d) == v,
            None => r is None,
        },
{
    let s = chars_of(input);
    let t = Tokens::new(cfg);
    match payload_tag_at(cfg, &t, input, &s, 0, &t.include_) {
        Some((k, p)) => Some((slice_string(input, k, s.len()), Directive::Include { path: p })),
        None => None,
    }
}

/// An `if` block.
pub fn if_block(cfg: &ParserConfig, input: &str) -> (r: Option<(String, Directive)>)
    ensures
        match if_rule(cfg@, input@, 0) {
            Some((k, v)) => r matches Some((rest, d)) && rest@ == input@.subrange(k, input@.len() as int)
                && dir_view(d) == v,
            None => r is None,
        },
{
    let s = chars_of(input);
    let t = Tokens::new(cfg);
    match if_block_at(cfg, &t, input, &s, 0) {
        Some((k, d)) => Some((slice_string(input, k, s.len()), d)),
        None => None,
    }
}

/// An `if`/`else` block.
pub fn ifelse_block(cfg: &ParserConfig, input: &str) -> (r: Option<(String, Directive)>)
    ensures
        match ifelse_rule(cfg@, input@, 0) {
            Some((k, v)) => r matches Some((rest, d)) && rest@ == input@.subrange(k, input@.len() as int)
                && dir_view(d) == v,
            None => r is None,
        },
{
    let s = chars_of(input);
    let t = Tokens::new(cfg);
    match ifelse_block_at(cfg, &t, input, &s, 0) {
        Some((k, d)) => Some((slice_string(input, k, s.len()), d)),
        None => None,
    }
}

/// A transform block.
pub fn transform_block(cfg: &ParserConfig, input: &str) -> (r: Option<(String, Directive)>)
    ensures
        match transform_rule(cfg@, input@, 0) {
            Some((k, v)) => r matches Some((rest, d)) && rest@ == input@.subrange(k, input@.len() as int)
                && dir_view(d) == v,
            None => r is None,
        },
{
    let s = chars_of(input);
    let t = Tokens::new(cfg);
    match transform_block_at(cfg, &t, input, &s, 0) {
        Some((k, d)) => Some((slice_string(input, k, s.len()), d)),
        None => None,
    }
}

/// One block: the first alternative that matches.
pub fn template_block(cfg: &ParserConfig, input: &str) -> (r: Option<(String, Directive)>)
    ensures
        match block(cfg@, input@, 0) {
            Some((k, v)) => r matches Some((rest, d)) && rest@ == input@.subrange(k, input@.len() as int)
                && dir_view(d) == v,
            None => r is None,
        },
{
    let s = chars_of(input);
    let t = Tokens::new(cfg);
    match block_at(cfg, &t, input, &s, 0) {
        Some((k, d)) => Some((slice_string(input, k, s.len()), d)),
        None => None,
    }
}

} // verus!
