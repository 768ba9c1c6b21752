use vstd::prelude::*;
use vstd::string::StringExecFns;

verus! {

/// The arithmetic-operator tag the shared compute step is parameterized by:
/// every arithmetic node translates through the same machinery, differing
/// only in the tag it passes.
#[derive(Clone, Copy, Debug, PartialEq, Eq, Structural)]
pub enum ArithOp {
    Add,
    Sub,
    Mul,
    Div,
    Modulo,
}

/// The operator's rendering in the target text.
pub open spec fn op_symbol(op: ArithOp) -> Seq<char> {
    match op {
        ArithOp::Add => "+"@,
        ArithOp::Sub => "-"@,
        ArithOp::Mul => "*"@,
        ArithOp::Div => "/"@,
        ArithOp::Modulo => "%"@,
    }
}

/// The views of optionally present, already-translated operand text.
pub open spec fn opt_text(o: Option<String>) -> Option<Seq<char>> {
    match o {
        Some(s) => Some(s@),
        None => None,
    }
}

/// The combined translated text of one arithmetic computation: the operator's
/// symbol between, after, or in place of the absent operands, separated by
/// single spaces.
pub open spec fn computation_text(
    op: ArithOp,
    left: Option<Seq<char>>,
    right: Option<Seq<char>>,
) -> Seq<char> {
    let sym = op_symbol(op);
    match (left, right) {
        (Some(l), Some(r)) => l + " "@ + sym + " "@ + r,
        (Some(l), None) => l + " "@ + sym,
        (None, Some(r)) => sym + " "@ + r,
        (None, None) => sym,
    }
}

/// The operator's symbol as source text.
fn op_str(op: ArithOp) -> (r: &'static str)
    ensures
        r@ == op_symbol(op),
{
    match op {
        ArithOp::Add => "+",
        ArithOp::Sub => "-",
        ArithOp::Mul => "*",
        ArithOp::Div => "/",
        ArithOp::Modulo => "%",
    }
}

/// The generic compute step of translation: renders one arithmetic
/// computation over zero, one or two already-translated operand texts.
pub fn translate_computation(op: ArithOp, left: Option<String>, right: Option<String>) -> (r:
    String)
    ensures
        r@ == computation_text(op, opt_text(left), opt_text(right)),
{
    let mut out = String::new();
    match &left {
        Some(l) => {
            out.append(l.as_str());
            out.append(" ");
        },
        None => {},
    }
    out.append(op_str(op));
    match &right {
        Some(r) => {
            out.append(" ");
            out.append(r.as_str());
        },
        None => {},
    }
    out
}

} // verus!
