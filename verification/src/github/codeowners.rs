//! CODEOWNERS patterns compiled to matcher programs.

use vstd::prelude::*;
use crate::text::{chars_of, has_char, has_prefix, string_of};

verus! {

/// Limits for parsing structured GitHub configuration.
#[derive(Debug, Clone, Copy, PartialEq, Eq, Structural)]
pub struct StructuredParseOptions {
    pub max_source_bytes: usize,
    pub max_nodes: usize,
    pub max_depth: usize,
    pub max_scalar_bytes: usize,
    pub max_diagnostics: usize,
}

impl Default for StructuredParseOptions {
    fn default() -> (r: Self)
        ensures
            r == (StructuredParseOptions {
                max_source_bytes: 524288,
                max_nodes: 4_096,
                max_depth: 32,
                max_scalar_bytes: 8192,
                max_diagnostics: 128,
            }),
    {
        StructuredParseOptions {
            max_source_bytes: 524288,
            max_nodes: 4_096,
            max_depth: 32,
            max_scalar_bytes: 8192,
            max_diagnostics: 128,
        }
    }
}

/// One step of a CODEOWNERS matcher.
#[derive(Debug, Clone, PartialEq, Eq)]
pub enum CodeownersOp {
    /// The pattern is anchored at the repository root.
    Root,
    Slash,
    DoubleStar,
    Star,
    Literal(String),
}

pub enum OpView {
    Root,
    Slash,
    DoubleStar,
    Star,
    Literal(Seq<char>),
}

impl View for CodeownersOp {
    type V = OpView;

    open spec fn view(&self) -> OpView {
        match self {
            CodeownersOp::Root => OpView::Root,
            CodeownersOp::Slash => OpView::Slash,
            CodeownersOp::DoubleStar => OpView::DoubleStar,
            CodeownersOp::Star => OpView::Star,
            CodeownersOp::Literal(s) => OpView::Literal(s@),
        }
    }
}

pub open spec fn op_views(v: Seq<CodeownersOp>) -> Seq<OpView> {
    v.map_values(|o: CodeownersOp| o@)
}

/// Why a pattern cannot be compiled.
#[derive(Debug, Clone, Copy, PartialEq, Eq, Structural)]
pub enum CodeownersPatternError {
    /// Negation, escapes, character classes or non-ASCII text.
    UnsupportedPattern,
    /// Too many steps, none at all, or more than 64 owners.
    NodeBudgetExceeded,
}

/// `ops`, with the pending literal appended when there is one.
pub open spec fn flushed(ops: Seq<OpView>, lit: Seq<char>) -> Seq<OpView> {
    if lit.len() > 0 { ops.push(OpView::Literal(lit)) } else { ops }
}

/// Compiles `p` from index `i` on, with `ops` built and `lit` pending; the
/// step count may not exceed `limit` after any character.
pub open spec fn compile_from(p: Seq<char>, i: int, ops: Seq<OpView>, lit: Seq<char>, limit: int) -> Result<Seq<OpView>, CodeownersPatternError>
    decreases p.len() - i,
{
    if i < 0 || i >= p.len() {
        let done = flushed(ops, lit);
        if done.len() == 0 { Err(CodeownersPatternError::NodeBudgetExceeded) } else { Ok(done) }
    } else if p[i] != '/' && p[i] != '*' && p[i] >= '\u{80}' {
        Err(CodeownersPatternError::UnsupportedPattern)
    } else {
        let double = p[i] == '*' && i + 1 < p.len() && p[i + 1] == '*';
        let ops2 = if p[i] == '/' {
            flushed(ops, lit).push(OpView::Slash)
        } else if double {
            flushed(ops, lit).push(OpView::DoubleStar)
        } else if p[i] == '*' {
            flushed(ops, lit).push(OpView::Star)
        } else {
            ops
        };
        let lit2 = if p[i] == '/' || p[i] == '*' { Seq::empty() } else { lit.push(p[i]) };
        let next = if double { i + 2 } else { i + 1 };
        if ops2.len() > limit {
            Err(CodeownersPatternError::NodeBudgetExceeded)
        } else {
            compile_from(p, next, ops2, lit2, limit)
        }
    }
}

/// The program of a CODEOWNERS pattern: negations, `\#` escapes, `[`, `]`
/// and `\` are unsupported; a leading `/` anchors it; then `/`, `**`, `*`
/// and runs of other ASCII characters, at most `min(max_nodes, 256)` steps.
pub open spec fn pattern_program(p: Seq<char>, owner_count: nat, max_nodes: usize) -> Result<Seq<OpView>, CodeownersPatternError> {
    let limit: int = if max_nodes < 256 { max_nodes as int } else { 256 };
    if has_prefix(p, seq!['!']) || has_prefix(p, seq!['\\', '#']) || has_char(p, '[') || has_char(p, ']')
        || has_char(p, '\\') {
        Err(CodeownersPatternError::UnsupportedPattern)
    } else {
        let start = if p.len() > 0 && p[0] == '/' { 1int } else { 0int };
        let ops0 = if start == 1 { seq![OpView::Root] } else { Seq::empty() };
        match compile_from(p, start, ops0, Seq::empty(), limit) {
            Ok(ops) => if owner_count > 64 { Err(CodeownersPatternError::NodeBudgetExceeded) } else { Ok(ops) },
            Err(e) => Err(e),
        }
    }
}

fn flush_literal(literal: &mut Vec<char>, ops: &mut Vec<CodeownersOp>)
    ensures
        op_views(final(ops)@) == flushed(op_views(old(ops)@), old(literal)@),
        final(literal)@.len() == 0,
{
    if literal.len() > 0 {
        ops.push(CodeownersOp::Literal(string_of(literal.as_slice())));
        assert(op_views(ops@) =~= op_views(old(ops)@).push(OpView::Literal(old(literal)@)));
        *literal = Vec::new();
    } else {
        assert(op_views(ops@) =~= op_views(old(ops)@));
    }
}

/// `pattern_program(pattern, owner_count, max_nodes)`.
pub fn compile_pattern(pattern: &str, owner_count: usize, max_nodes: usize) -> (r: Result<Vec<CodeownersOp>, CodeownersPatternError>)
    ensures
        match pattern_program(pattern@, owner_count as nat, max_nodes) {
            Ok(ops) => r matches Ok(v) && op_views(v@) == ops,
            Err(e) => r matches Err(e2) && e2 == e,
        },
{
    let cv = chars_of(pattern);
    let p = cv.as_slice();
    let limit: usize = if max_nodes < 256 { max_nodes } else { 256 };
    let bang = p.len() > 0 && p[0] == '!';
    let escaped = p.len() > 1 && p[0] == '\\' && p[1] == '#';
    proof {
        if p.len() > 0 {
            assert(has_prefix(p@, seq!['!']) == (p@[0] == '!')) by {
                if p@[0] == '!' { assert(p@.subrange(0, 1) =~= seq!['!']); }
                if has_prefix(p@, seq!['!']) { assert(p@.subrange(0, 1)[0] == p@[0]); }
            }
        }
        if p.len() > 1 {
            assert(has_prefix(p@, seq!['\\', '#']) == (p@[0] == '\\' && p@[1] == '#')) by {
                if p@[0] == '\\' && p@[1] == '#' { assert(p@.subrange(0, 2) =~= seq!['\\', '#']); }
                if has_prefix(p@, seq!['\\', '#']) {
                    assert(p@.subrange(0, 2)[0] == p@[0]);
                    assert(p@.subrange(0, 2)[1] == p@[1]);
                }
            }
        }
    }
    if bang || escaped || crate::text::contains_char(p, '[') || crate::text::contains_char(p, ']')
        || crate::text::contains_char(p, '\\') {
        return Err(CodeownersPatternError::UnsupportedPattern);
    }
    let mut ops: Vec<CodeownersOp> = Vec::new();
    let mut literal: Vec<char> = Vec::new();
    let mut index: usize = 0;
    if p.len() > 0 && p[0] == '/' {
        ops.push(CodeownersOp::Root);
        index = 1;
    }
    let ghost start = index as int;
    assert(op_views(ops@) =~= if start == 1 { seq![OpView::Root] } else { Seq::<OpView>::empty() });
    while index < p.len()
        invariant
            cv@ == pattern@,
            p@ == pattern@,
            index <= p.len() + 1,
            limit == (if max_nodes < 256 { max_nodes } else { 256 }),
            ops@.len() <= limit + 1,
            !(has_prefix(p@, seq!['!']) || has_prefix(p@, seq!['\\', '#']) || has_char(p@, '[') || has_char(p@, ']')
                || has_char(p@, '\\')),
            start == (if p@.len() > 0 && p@[0] == '/' { 1int } else { 0int }),
            compile_from(p@, start, if start == 1 { seq![OpView::Root] } else { Seq::<OpView>::empty() },
                Seq::empty(), limit as int) == compile_from(p@, index as int, op_views(ops@), literal@, limit as int),
        decreases p.len() + 1 - index,
    {
        let c = p[index];
        let ghost before = op_views(ops@);
        let ghost lit_before = literal@;
        if c == '/' {
            flush_literal(&mut literal, &mut ops);
            assert(literal@ =~= Seq::<char>::empty());
            let ghost mid = op_views(ops@);
            ops.push(CodeownersOp::Slash);
            assert(op_views(ops@) =~= mid.push(OpView::Slash));
            index = index + 1;
        } else if c == '*' && index + 1 < p.len() && p[index + 1] == '*' {
            flush_literal(&mut literal, &mut ops);
            assert(literal@ =~= Seq::<char>::empty());
            let ghost mid = op_views(ops@);
            ops.push(CodeownersOp::DoubleStar);
            assert(op_views(ops@) =~= mid.push(OpView::DoubleStar));
            index = index + 2;
        } else if c == '*' {
            flush_literal(&mut literal, &mut ops);
            assert(literal@ =~= Seq::<char>::empty());
            let ghost mid = op_views(ops@);
            ops.push(CodeownersOp::Star);
            assert(op_views(ops@) =~= mid.push(OpView::Star));
            index = index + 1;
        } else if c <= '\x7f' {
            literal.push(c);
            index = index + 1;
        } else {
            return Err(CodeownersPatternError::UnsupportedPattern);
        }
        if ops.len() > limit {
            return Err(CodeownersPatternError::NodeBudgetExceeded);
        }
    }
    flush_literal(&mut literal, &mut ops);
    if ops.len() == 0 || owner_count > 64 {
        return Err(CodeownersPatternError::NodeBudgetExceeded);
    }
    Ok(ops)
}

/// A line without its `\n`, then without a `\r` before it.
pub open spec fn without_line_ending(s: Seq<char>) -> Seq<char> {
    let a = if s.len() > 0 && s.last() == '\n' { s.drop_last() } else { s };
    if a.len() > 0 && a.last() == '\r' { a.drop_last() } else { a }
}

/// `without_line_ending(segment)`.
pub fn strip_line_ending(segment: &str) -> (r: String)
    ensures
        r@ == without_line_ending(segment@),
{
    let s = chars_of(segment);
    let mut end = s.len();
    if end > 0 && s[end - 1] == '\n' {
        end = end - 1;
    }
    if end > 0 && s[end - 1] == '\r' {
        end = end - 1;
    }
    proof {
        let a = if s@.len() > 0 && s@.last() == '\n' { s@.drop_last() } else { s@ };
        assert(a =~= s@.subrange(0, if s@.len() > 0 && s@.last() == '\n' { s@.len() - 1 } else { s@.len() as int }));
    }
    let out = crate::text::slice_of(s.as_slice(), 0, end);
    assert(out@ =~= without_line_ending(segment@));
    string_of(out.as_slice())
}

} // verus!
