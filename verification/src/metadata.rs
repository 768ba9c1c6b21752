use vstd::prelude::*;
use crate::token::{Token, TokenView, tokens_view, clone_tokens};

verus! {

/// The parser's state over one token stream: the tokens of the expression
/// being analyzed and the cursor into them. It is the interface the grammar
/// consumes tokens through (lookahead and exact-match consumption), and a
/// snapshot of it is kept in every function declaration so the stored raw
/// body can be re-parsed at instantiation time.
#[derive(Debug)]
pub struct ParserMetadata {
    pub expr: Vec<Token>,
    pub index: usize,
}

/// The mathematical value of a [`ParserMetadata`]: the token views and the
/// cursor.
#[verifier::ext_equal]
pub ghost struct ParserMetadataView {
    pub expr: Seq<TokenView>,
    pub index: usize,
}

impl View for ParserMetadata {
    type V = ParserMetadataView;

    open spec fn view(&self) -> ParserMetadataView {
        ParserMetadataView { expr: tokens_view(self.expr@), index: self.index }
    }
}

impl Clone for ParserMetadata {
    fn clone(&self) -> (r: ParserMetadata)
        ensures
            r@ == self@,
    {
        let r = ParserMetadata { expr: clone_tokens(&self.expr), index: self.index };
        proof {
            assert(r@ =~= self@);
        }
        r
    }
}

impl ParserMetadata {
    /// The cursor never runs past the end of the token stream.
    pub open spec fn wf(&self) -> bool {
        self.index <= self.expr.len()
    }

    /// A parser state at the start of the given token stream.
    pub fn new(expr: Vec<Token>) -> (r: ParserMetadata)
        ensures
            r@.expr == tokens_view(expr@),
            r@.index == 0,
            r.wf(),
    {
        ParserMetadata { expr, index: 0 }
    }

    /// Lookahead: the token under the cursor, if any, without consuming it.
    pub fn get_current_token(&self) -> (r: Option<Token>)
        ensures
            match r {
                Some(t) => self@.index < self@.expr.len() && t@ == self@.expr[self@.index as int],
                None => self@.index >= self@.expr.len(),
            },
    {
        if self.index < self.expr.len() {
            Some(self.expr[self.index].clone())
        } else {
            None
        }
    }

    /// Whether the token under the cursor exists and reads exactly `expected`.
    pub fn is_current(&self, expected: &str) -> (r: bool)
        ensures
            r == (self@.index < self@.expr.len() && self@.expr[self@.index as int].word
                == expected@),
    {
        if self.index < self.expr.len() {
            let e: String = expected.to_owned();
            self.expr[self.index].word == e
        } else {
            false
        }
    }

    /// Exact-match consumption: advances past the current token when it reads
    /// exactly `expected`, and reports whether it did. The stream itself is
    /// never changed, only the cursor.
    pub fn token(&mut self, expected: &str) -> (r: bool)
        requires
            old(self).wf(),
        ensures
            final(self).wf(),
            final(self)@.expr == old(self)@.expr,
            r == (old(self)@.index < old(self)@.expr.len()
                && old(self)@.expr[old(self)@.index as int].word == expected@),
            final(self)@.index == if r {
                old(self)@.index + 1
            } else {
                old(self)@.index as int
            },
    {
        if self.is_current(expected) {
            self.index = self.index + 1;
            true
        } else {
            false
        }
    }
}

} // verus!
