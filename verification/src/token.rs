//! Tokens: an immutable symbol paired with its source position. Both the
//! original and the expanded streams reference tokens carrying positions in
//! files that were actually read.

use vstd::prelude::*;
use crate::position::Position;
use crate::symbol::{spec_render, Symbol};

verus! {

/// An immutable lexical unit with the source region it came from.
pub struct Token {
    pub symbol: Symbol,
    pub position: Position,
}

impl Clone for Token {
    fn clone(&self) -> (r: Self)
        ensures
            r == *self,
    {
        Token { symbol: self.symbol.clone(), position: self.position.clone() }
    }
}

impl Token {
    pub fn new(symbol: Symbol, position: Position) -> (r: Token)
        ensures
            r == (Token { symbol, position }),
    {
        Token { symbol, position }
    }

    pub fn symbol(&self) -> (r: &Symbol)
        ensures
            r == self.symbol,
    {
        &self.symbol
    }

    pub fn position(&self) -> (r: &Position)
        ensures
            r == self.position,
    {
        &self.position
    }

    /// The token's textual form.
    pub open spec fn spec_text(&self) -> Seq<char> {
        spec_render(self.symbol)
    }

    /// Renders the token as the text it stands for.
    pub fn text(&self) -> (r: String)
        ensures
            r@ == self.spec_text(),
    {
        self.symbol.render()
    }

    /// The word's text, where the token is a word.
    pub open spec fn spec_word(&self) -> Option<Seq<char>> {
        self.symbol.spec_word()
    }
}

/// Clones a token sequence.
pub fn clone_tokens(v: &Vec<Token>) -> (r: Vec<Token>)
    ensures
        r@ == v@,
{
    let mut r: Vec<Token> = Vec::new();
    let mut i: usize = 0;
    while i < v.len()
        invariant
            i <= v.len(),
            r@ == v@.take(i as int),
        decreases v.len() - i,
    {
        r.push(v[i].clone());
        proof {
            assert(r@ =~= v@.take(i + 1 as int));
        }
        i = i + 1;
    }
    proof {
        assert(v@.take(v@.len() as int) =~= v@);
    }
    r
}

} // verus!
