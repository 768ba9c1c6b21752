use vstd::prelude::*;
use vstd::string::StrSliceExecFns;
use crate::compute::{ArithOp, computation_text, translate_computation};
use crate::metadata::ParserMetadata;
use crate::token::{Token, TokenView};
use crate::types::Type;

verus! {

/// Whether `c` is an ascii decimal digit.
pub open spec fn is_digit(c: char) -> bool {
    48 <= c as u32 && c as u32 <= 57
}

/// A token that reads as a numeric literal: one or more digits.
pub open spec fn num_word(w: Seq<char>) -> bool {
    w.len() > 0 && forall|i: int| 0 <= i < w.len() ==> is_digit(#[trigger] w[i])
}

/// A token that reads as a text literal: it opens with a quote.
pub open spec fn text_word(w: Seq<char>) -> bool {
    w.len() > 0 && w[0] == '"'
}

/// A token an operand atom can be parsed from.
pub open spec fn atom_ok(t: TokenView) -> bool {
    num_word(t.word) || text_word(t.word)
}

/// The division operator's token.
pub open spec fn is_divide(t: TokenView) -> bool {
    t.word == "/"@
}

/// The fixed explanation a division type error carries.
pub open spec fn divide_type_error() -> Seq<char> {
    "Divide operation can only divide numbers"@
}

/// The mathematical value of an expression node: what it was parsed from,
/// with the operand structure of every division.
#[verifier::ext_equal]
pub ghost enum ExprView {
    Num { word: Seq<char>, row: usize, col: usize },
    Text { word: Seq<char>, row: usize, col: usize },
    Div { left: Box<ExprView>, right: Box<ExprView> },
}

/// The single concrete type an expression node reports: a division node
/// always reports the numeric type, whatever its operands report.
pub open spec fn expr_type_view(e: ExprView) -> Type {
    match e {
        ExprView::Num { .. } => Type::Num,
        ExprView::Text { .. } => Type::Text,
        ExprView::Div { .. } => Type::Num,
    }
}

/// The parsed-and-type-checked state of a node: literals hold a word of
/// their kind, and both operands of every division are themselves well typed
/// and report the numeric type. Translation is only ever invoked on a node in
/// this state.
pub open spec fn well_typed(e: ExprView) -> bool
    decreases e,
{
    match e {
        ExprView::Num { word, .. } => num_word(word),
        ExprView::Text { word, .. } => text_word(word),
        ExprView::Div { left, right } => well_typed(*left) && well_typed(*right)
            && expr_type_view(*left) == Type::Num && expr_type_view(*right) == Type::Num,
    }
}

/// The operand node one atom token parses to.
pub open spec fn atom_view(t: TokenView) -> ExprView {
    if num_word(t.word) {
        ExprView::Num { word: t.word, row: t.row, col: t.col }
    } else {
        ExprView::Text { word: t.word, row: t.row, col: t.col }
    }
}

/// What one parse of an expression yields.
#[verifier::ext_equal]
pub ghost enum ParseOutcome {
    /// The node and the index of the first token after it.
    Parsed { e: ExprView, next: int },
    /// A type mismatch, tagged with the offending operator token's position.
    Mismatch { row: usize, col: usize },
    /// A token no atom can be parsed from, at its position.
    Unexpected { row: usize, col: usize },
    /// The tokens ran out where an operand was needed.
    End,
}

/// The expression grammar and its eager type checking, in one mathematical
/// pass: an expression starting at `i` is an atom, optionally followed by the
/// division operator and a further expression; both arms of a division must
/// report the numeric type, and a violation fails the parse right at the
/// operator token. Parsing and type checking are fused: no partial node
/// survives a mismatch.
pub open spec fn spec_parse(toks: Seq<TokenView>, i: int) -> ParseOutcome
    decreases toks.len() - i,
    when 0 <= i
{
    if i >= toks.len() {
        ParseOutcome::End
    } else if !atom_ok(toks[i]) {
        ParseOutcome::Unexpected { row: toks[i].row, col: toks[i].col }
    } else {
        let atom = atom_view(toks[i]);
        if i + 1 < toks.len() && is_divide(toks[i + 1]) {
            match spec_parse(toks, i + 2) {
                ParseOutcome::Parsed { e, next } => {
                    if expr_type_view(atom) == Type::Num && expr_type_view(e) == Type::Num {
                        ParseOutcome::Parsed {
                            e: ExprView::Div { left: Box::new(atom), right: Box::new(e) },
                            next,
                        }
                    } else {
                        ParseOutcome::Mismatch { row: toks[i + 1].row, col: toks[i + 1].col }
                    }
                },
                other => other,
            }
        } else {
            ParseOutcome::Parsed { e: atom, next: i + 1 }
        }
    }
}

/// A successful parse yields a well-typed node and leaves the cursor past at
/// least one token and within the stream.
pub proof fn lemma_parse_well_typed(toks: Seq<TokenView>, i: int)
    requires
        0 <= i,
    ensures
        spec_parse(toks, i) matches ParseOutcome::Parsed { e, next } ==> well_typed(e) && i < next
            <= toks.len(),
    decreases toks.len() - i,
{
    if i < toks.len() && atom_ok(toks[i]) {
        let atom = atom_view(toks[i]);
        assert(well_typed(atom));
        if i + 1 < toks.len() && is_divide(toks[i + 1]) {
            lemma_parse_well_typed(toks, i + 2);
            match spec_parse(toks, i + 2) {
                ParseOutcome::Parsed { e, next } => {
                    if expr_type_view(atom) == Type::Num && expr_type_view(e) == Type::Num {
                        assert(well_typed(
                            ExprView::Div { left: Box::new(atom), right: Box::new(e) },
                        ));
                    }
                },
                _ => {},
            }
        }
    }
}

/// A diagnostic the expression parser raises; the type mismatch carries the
/// offending token's position and a fixed explanation.
#[derive(Debug)]
pub enum ParseError {
    TypeMismatch { row: usize, col: usize, message: String },
    UnexpectedToken { row: usize, col: usize },
    UnexpectedEnd,
}

/// An expression node: a numeric literal, a text literal, or a division —
/// the canonical arithmetic operator; further operator kinds repeat its
/// shape.
#[derive(Debug)]
pub enum Expr {
    Num { word: String, row: usize, col: usize },
    Text { word: String, row: usize, col: usize },
    Div(Div),
}

/// The division operator node: the canonical instance of the three-phase
/// contract — constructed empty, then parsed and type-checked in one step,
/// then translated.
#[derive(Debug)]
pub struct Div {
    pub left: Box<Expr>,
    pub right: Box<Expr>,
}

/// The mathematical value of an expression node.
pub open spec fn expr_view(e: Expr) -> ExprView
    decreases e,
{
    match e {
        Expr::Num { word, row, col } => ExprView::Num { word: word@, row, col },
        Expr::Text { word, row, col } => ExprView::Text { word: word@, row, col },
        Expr::Div(d) => ExprView::Div {
            left: Box::new(expr_view(*d.left)),
            right: Box::new(expr_view(*d.right)),
        },
    }
}

impl View for Expr {
    type V = ExprView;

    open spec fn view(&self) -> ExprView {
        expr_view(*self)
    }
}

impl View for Div {
    type V = ExprView;

    open spec fn view(&self) -> ExprView {
        ExprView::Div {
            left: Box::new(expr_view(*self.left)),
            right: Box::new(expr_view(*self.right)),
        }
    }
}

/// The node shape construction starts from, before any token is consumed.
pub open spec fn empty_expr() -> ExprView {
    ExprView::Num { word: Seq::empty(), row: 0, col: 0 }
}

/// Decides [`num_word`] for a token's text.
pub fn is_num_str(w: &str) -> (r: bool)
    ensures
        r == num_word(w@),
{
    let n = w.unicode_len();
    if n == 0 {
        return false;
    }
    let mut i: usize = 0;
    while i < n
        invariant
            n == w@.len(),
            i <= n,
            forall|j: int| 0 <= j < i ==> is_digit(#[trigger] w@[j]),
        decreases n - i,
    {
        let c = w.get_char(i);
        let u = c as u32;
        if u < 48 || u > 57 {
            return false;
        }
        i = i + 1;
    }
    true
}

/// Decides [`text_word`] for a token's text.
pub fn is_text_str(w: &str) -> (r: bool)
    ensures
        r == text_word(w@),
{
    let n = w.unicode_len();
    if n == 0 {
        return false;
    }
    w.get_char(0) == '"'
}

/// Parses one operand atom: a numeric literal or a text literal, consumed
/// from the cursor. Anything else is rejected at its position; an exhausted
/// stream is reported as such. The token stream itself never changes.
pub fn parse_atom(meta: &mut ParserMetadata) -> (r: Result<Expr, ParseError>)
    requires
        old(meta).wf(),
    ensures
        final(meta).wf(),
        final(meta)@.expr == old(meta)@.expr,
        match r {
            Ok(e) => old(meta)@.index < old(meta)@.expr.len() && atom_ok(
                old(meta)@.expr[old(meta)@.index as int],
            ) && e@ == atom_view(old(meta)@.expr[old(meta)@.index as int]) && final(meta)@.index
                == old(meta)@.index + 1,
            Err(ParseError::UnexpectedEnd) => old(meta)@.index >= old(meta)@.expr.len() && final(meta)@.index == old(meta)@.index,
            Err(ParseError::UnexpectedToken { row, col }) => old(meta)@.index
                < old(meta)@.expr.len() && !atom_ok(old(meta)@.expr[old(meta)@.index as int])
                && row == old(meta)@.expr[old(meta)@.index as int].row && col == old(meta)@.expr[old(meta)@.index as int].col && final(meta)@.index == old(meta)@.index,
            Err(ParseError::TypeMismatch { .. }) => false,
        },
{
    let t = match meta.get_current_token() {
        Some(t) => t,
        None => {
            return Err(ParseError::UnexpectedEnd);
        },
    };
    if is_num_str(t.word.as_str()) {
        meta.index = meta.index + 1;
        Ok(Expr::Num { word: t.word, row: t.row, col: t.col })
    } else if is_text_str(t.word.as_str()) {
        meta.index = meta.index + 1;
        Ok(Expr::Text { word: t.word, row: t.row, col: t.col })
    } else {
        Err(ParseError::UnexpectedToken { row: t.row, col: t.col })
    }
}

/// Parses one expression from the cursor: an atom, or a division whose left
/// arm is the atom and whose right arm is the expression after the operator.
/// Exactly the outcome [`spec_parse`] gives: a well-typed node with the
/// cursor left on the first token after it, or the error the grammar
/// determines, raised fail-fast so no partial node survives.
pub fn parse_expr(meta: &mut ParserMetadata) -> (r: Result<Expr, ParseError>)
    requires
        old(meta).wf(),
    ensures
        final(meta).wf(),
        final(meta)@.expr == old(meta)@.expr,
        match r {
            Ok(e) => spec_parse(old(meta)@.expr, old(meta)@.index as int)
                == (ParseOutcome::Parsed { e: e@, next: final(meta)@.index as int }) && well_typed(
                e@,
            ),
            Err(ParseError::TypeMismatch { row, col, message }) => spec_parse(
                old(meta)@.expr,
                old(meta)@.index as int,
            ) == (ParseOutcome::Mismatch { row, col }) && message@ == divide_type_error(),
            Err(ParseError::UnexpectedToken { row, col }) => spec_parse(
                old(meta)@.expr,
                old(meta)@.index as int,
            ) == (ParseOutcome::Unexpected { row, col }),
            Err(ParseError::UnexpectedEnd) => spec_parse(
                old(meta)@.expr,
                old(meta)@.index as int,
            ) == ParseOutcome::End,
        },
    decreases old(meta)@.expr.len() - old(meta)@.index,
{
    let ghost toks = old(meta)@.expr;
    let ghost i0 = old(meta)@.index as int;
    let left = match parse_atom(meta) {
        Ok(e) => e,
        Err(er) => {
            return Err(er);
        },
    };
    proof {
        assert(left@ == atom_view(toks[i0]));
        assert(well_typed(left@));
    }
    if meta.is_current("/") {
        proof {
            assert(i0 + 1 < toks.len() && is_divide(toks[i0 + 1]));
        }
        let tok = match meta.get_current_token() {
            Some(t) => t,
            None => {
                return Err(ParseError::UnexpectedEnd);
            },
        };
        meta.token("/");
        let right = match parse_expr(meta) {
            Ok(e) => e,
            Err(er) => {
                proof {
                    assert(spec_parse(toks, i0) == spec_parse(toks, i0 + 2));
                }
                return Err(er);
            },
        };
        let arms = expression_arms_of_type(
            &left,
            &right,
            Type::Num,
            &tok,
            "Divide operation can only divide numbers",
        );
        match arms {
            Ok(()) => {
                let result = Expr::Div(Div { left: Box::new(left), right: Box::new(right) });
                proof {
                    assert(result@ == (ExprView::Div {
                        left: Box::new(atom_view(toks[i0])),
                        right: Box::new(right@),
                    }));
                    assert(spec_parse(toks, i0) == (ParseOutcome::Parsed {
                        e: result@,
                        next: meta@.index as int,
                    }));
                }
                Ok(result)
            },
            Err(er) => {
                proof {
                    assert(tok@ == toks[i0 + 1]);
                    assert(spec_parse(toks, i0) == (ParseOutcome::Mismatch {
                        row: toks[i0 + 1].row,
                        col: toks[i0 + 1].col,
                    }));
                }
                Err(er)
            },
        }
    } else {
        proof {
            assert(!(i0 + 1 < toks.len() && is_divide(toks[i0 + 1])));
            assert(spec_parse(toks, i0) == (ParseOutcome::Parsed {
                e: atom_view(toks[i0]),
                next: i0 + 1,
            }));
        }
        Ok(left)
    }
}

/// The arm-type enforcement every binary arithmetic node shares: both
/// operands must report `expected`, else a type mismatch is raised, tagged
/// with the recorded operator token's position and the given explanation.
pub fn expression_arms_of_type(
    left: &Expr,
    right: &Expr,
    expected: Type,
    tok: &Token,
    message: &str,
) -> (r: Result<(), ParseError>)
    ensures
        match r {
            Ok(()) => expr_type_view(left@) == expected && expr_type_view(right@) == expected,
            Err(ParseError::TypeMismatch { row, col, message: m }) => !(expr_type_view(left@)
                == expected && expr_type_view(right@) == expected) && row == tok@.row && col
                == tok@.col && m@ == message@,
            Err(ParseError::UnexpectedToken { .. }) => false,
            Err(ParseError::UnexpectedEnd) => false,
        },
{
    let lt = left.get_type();
    let rt = right.get_type();
    if lt == expected && rt == expected {
        Ok(())
    } else {
        Err(ParseError::TypeMismatch { row: tok.row, col: tok.col, message: message.to_owned() })
    }
}

/// The translated text of a node: a literal translates to its word, a
/// division combines its translated operands through the shared compute step
/// with the division tag.
pub open spec fn translated(e: ExprView) -> Seq<char>
    decreases e,
{
    match e {
        ExprView::Num { word, .. } => word,
        ExprView::Text { word, .. } => word,
        ExprView::Div { left, right } => computation_text(
            ArithOp::Div,
            Some(translated(*left)),
            Some(translated(*right)),
        ),
    }
}

impl Expr {
    /// Construction: the default node shape, before parsing.
    pub fn new() -> (r: Expr)
        ensures
            r@ == empty_expr(),
    {
        Expr::Num { word: String::new(), row: 0, col: 0 }
    }

    /// The single concrete type this node reports.
    pub fn get_type(&self) -> (r: Type)
        ensures
            r == expr_type_view(self@),
    {
        match self {
            Expr::Num { .. } => Type::Num,
            Expr::Text { .. } => Type::Text,
            Expr::Div(_) => Type::Num,
        }
    }

    /// Translation, the separate last phase: defined only on a node that
    /// parsed and type-checked, and performs no further validation.
    pub fn translate(&self) -> (r: String)
        requires
            well_typed(self@),
        ensures
            r@ == translated(self@),
        decreases *self,
    {
        match self {
            Expr::Num { word, .. } => word.clone(),
            Expr::Text { word, .. } => word.clone(),
            Expr::Div(d) => d.translate(),
        }
    }
}

impl Div {
    /// Construction: a division with empty operands, before parsing.
    pub fn new() -> (r: Div)
        ensures
            r@ == (ExprView::Div {
                left: Box::new(empty_expr()),
                right: Box::new(empty_expr()),
            }),
    {
        Div { left: Box::new(Expr::new()), right: Box::new(Expr::new()) }
    }

    /// A division node always reports the numeric type, regardless of what
    /// its operands report.
    pub fn get_type(&self) -> (r: Type)
        ensures
            r == Type::Num,
    {
        Type::Num
    }

    /// Parse and type-check in one transition: the left operand, the
    /// division token (whose position is recorded for diagnostics), the right
    /// operand, then the arm-type enforcement — both arms must be numeric.
    /// On success this node holds exactly the division [`spec_parse`] yields;
    /// a stream that parses to something other than a division is rejected at
    /// the token where the operator was expected.
    pub fn parse(&mut self, meta: &mut ParserMetadata) -> (r: Result<(), ParseError>)
        requires
            old(meta).wf(),
        ensures
            final(meta).wf(),
            final(meta)@.expr == old(meta)@.expr,
            match r {
                Ok(()) => spec_parse(old(meta)@.expr, old(meta)@.index as int)
                    == (ParseOutcome::Parsed {
                    e: final(self)@,
                    next: final(meta)@.index as int,
                }) && well_typed(final(self)@),
                Err(ParseError::TypeMismatch { row, col, message }) => spec_parse(
                    old(meta)@.expr,
                    old(meta)@.index as int,
                ) == (ParseOutcome::Mismatch { row, col }) && message@ == divide_type_error(),
                Err(ParseError::UnexpectedToken { row, col }) => spec_parse(
                    old(meta)@.expr,
                    old(meta)@.index as int,
                ) == (ParseOutcome::Unexpected { row, col }) || (spec_parse(
                    old(meta)@.expr,
                    old(meta)@.index as int,
                ) matches ParseOutcome::Parsed { e, next } && !(e matches ExprView::Div { .. })
                    && old(meta)@.index + 1 < old(meta)@.expr.len() && row == old(meta)@.expr[old(meta)@.index + 1].row && col == old(meta)@.expr[old(meta)@.index
                    + 1].col),
                Err(ParseError::UnexpectedEnd) => spec_parse(
                    old(meta)@.expr,
                    old(meta)@.index as int,
                ) == ParseOutcome::End || (spec_parse(old(meta)@.expr, old(meta)@.index as int)
                    matches ParseOutcome::Parsed { e, next } && !(e matches ExprView::Div { .. })
                    && old(meta)@.index + 1 >= old(meta)@.expr.len()),
            },
    {
        let ghost toks = old(meta)@.expr;
        let ghost i0 = old(meta)@.index as int;
        let left = match parse_atom(meta) {
            Ok(e) => e,
            Err(er) => {
                return Err(er);
            },
        };
        proof {
            assert(left@ == atom_view(toks[i0]));
            assert(well_typed(left@));
        }
        let tok = meta.get_current_token();
        if !meta.token("/") {
            proof {
                assert(!(i0 + 1 < toks.len() && is_divide(toks[i0 + 1])));
                assert(spec_parse(toks, i0) == (ParseOutcome::Parsed {
                    e: atom_view(toks[i0]),
                    next: i0 + 1,
                }));
                assert(!(atom_view(toks[i0]) matches ExprView::Div { .. }));
            }
            return Err(
                match tok {
                    Some(t) => ParseError::UnexpectedToken { row: t.row, col: t.col },
                    None => ParseError::UnexpectedEnd,
                },
            );
        }
        proof {
            assert(i0 + 1 < toks.len() && is_divide(toks[i0 + 1]));
        }
        let right = match parse_expr(meta) {
            Ok(e) => e,
            Err(er) => {
                proof {
                    assert(spec_parse(toks, i0) == spec_parse(toks, i0 + 2));
                }
                return Err(er);
            },
        };
        let tokv = match tok {
            Some(t) => t,
            None => {
                return Err(ParseError::UnexpectedEnd);
            },
        };
        let arms = expression_arms_of_type(
            &left,
            &right,
            Type::Num,
            &tokv,
            "Divide operation can only divide numbers",
        );
        match arms {
            Ok(()) => {
                self.left = Box::new(left);
                self.right = Box::new(right);
                proof {
                    assert(self@ == (ExprView::Div {
                        left: Box::new(atom_view(toks[i0])),
                        right: Box::new(right@),
                    }));
                    assert(spec_parse(toks, i0) == (ParseOutcome::Parsed {
                        e: self@,
                        next: meta@.index as int,
                    }));
                }
                Ok(())
            },
            Err(er) => {
                proof {
                    assert(tokv@ == toks[i0 + 1]);
                    assert(spec_parse(toks, i0) == (ParseOutcome::Mismatch {
                        row: toks[i0 + 1].row,
                        col: toks[i0 + 1].col,
                    }));
                }
                Err(er)
            },
        }
    }

    /// Translation: both operands translate recursively, then the shared
    /// compute step combines them under the division tag.
    pub fn translate(&self) -> (r: String)
        requires
            well_typed(self@),
        ensures
            r@ == translated(self@),
        decreases *self,
    {
        let left = self.left.translate();
        let right = self.right.translate();
        translate_computation(ArithOp::Div, Some(left), Some(right))
    }
}

} // verus!
