use vstd::prelude::*;

verus! {

/// One lexeme handed over by the tokenizer: its text and the source position
/// (row and column) it was read at, kept for diagnostics.
#[derive(Debug)]
pub struct Token {
    pub word: String,
    pub row: usize,
    pub col: usize,
}

/// The mathematical value of a [`Token`]: its text as a sequence of
/// characters together with its position.
#[verifier::ext_equal]
pub ghost struct TokenView {
    pub word: Seq<char>,
    pub row: usize,
    pub col: usize,
}

impl View for Token {
    type V = TokenView;

    open spec fn view(&self) -> TokenView {
        TokenView { word: self.word@, row: self.row, col: self.col }
    }
}

impl Clone for Token {
    fn clone(&self) -> (r: Token)
        ensures
            r@ == self@,
    {
        Token { word: self.word.clone(), row: self.row, col: self.col }
    }
}

/// The views of the tokens of `v`, in order.
pub open spec fn tokens_view(v: Seq<Token>) -> Seq<TokenView> {
    v.map_values(|t: Token| t@)
}

/// Copies a token sequence; the copy has the same view.
pub fn clone_tokens(v: &Vec<Token>) -> (r: Vec<Token>)
    ensures
        tokens_view(r@) == tokens_view(v@),
{
    let mut r: Vec<Token> = Vec::new();
    let mut i: usize = 0;
    while i < v.len()
        invariant
            i <= v.len(),
            r@.len() == i,
            forall|j: int| 0 <= j < i ==> r@[j]@ == v@[j]@,
        decreases v.len() - i,
    {
        r.push(v[i].clone());
        i = i + 1;
    }
    proof {
        assert(tokens_view(r@) =~= tokens_view(v@));
    }
    r
}

} // verus!
