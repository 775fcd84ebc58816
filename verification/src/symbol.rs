//! Lexical payloads of tokens, with exact equality and stable
//! stringification.

use vstd::prelude::*;
use crate::strings::{push_char, spec_dec, u64_to_text};

verus! {

/// The lexical kind of a token.
pub enum Symbol {
    /// An identifier-like run of characters.
    Word(String),
    /// An unsigned number.
    Digit(u64),
    LeftParenthesis,
    RightParenthesis,
    LeftBracket,
    RightBracket,
    Comma,
    DoubleQuote,
    Whitespace,
    Newline,
}

/// The stable textual form of a symbol.
pub open spec fn spec_render(s: Symbol) -> Seq<char> {
    match s {
        Symbol::Word(w) => w@,
        Symbol::Digit(n) => spec_dec(n as nat),
        Symbol::LeftParenthesis => "("@,
        Symbol::RightParenthesis => ")"@,
        Symbol::LeftBracket => "["@,
        Symbol::RightBracket => "]"@,
        Symbol::Comma => ","@,
        Symbol::DoubleQuote => "\""@,
        Symbol::Whitespace => " "@,
        Symbol::Newline => "\n"@,
    }
}

impl Clone for Symbol {
    fn clone(&self) -> (r: Self)
        ensures
            r == *self,
    {
        match self {
            Symbol::Word(w) => Symbol::Word(w.clone()),
            Symbol::Digit(n) => Symbol::Digit(*n),
            Symbol::LeftParenthesis => Symbol::LeftParenthesis,
            Symbol::RightParenthesis => Symbol::RightParenthesis,
            Symbol::LeftBracket => Symbol::LeftBracket,
            Symbol::RightBracket => Symbol::RightBracket,
            Symbol::Comma => Symbol::Comma,
            Symbol::DoubleQuote => Symbol::DoubleQuote,
            Symbol::Whitespace => Symbol::Whitespace,
            Symbol::Newline => Symbol::Newline,
        }
    }
}

impl Symbol {
    /// The word's text, where the symbol is a word.
    pub open spec fn spec_word(&self) -> Option<Seq<char>> {
        match self {
            Symbol::Word(w) => Some(w@),
            _ => None,
        }
    }

    /// Renders the symbol as the text it stands for.
    pub fn render(&self) -> (r: String)
        ensures
            r@ == spec_render(*self),
    {
        match self {
            Symbol::Word(w) => w.clone(),
            Symbol::Digit(n) => u64_to_text(*n),
            Symbol::LeftParenthesis => {
                let mut s = String::new();
                push_char(&mut s, '(');
                proof {
                    reveal_strlit("(");
                    assert(s@ =~= "("@);
                }
                s
            },
            Symbol::RightParenthesis => {
                let mut s = String::new();
                push_char(&mut s, ')');
                proof {
                    reveal_strlit(")");
                    assert(s@ =~= ")"@);
                }
                s
            },
            Symbol::LeftBracket => {
                let mut s = String::new();
                push_char(&mut s, '[');
                proof {
                    reveal_strlit("[");
                    assert(s@ =~= "["@);
                }
                s
            },
            Symbol::RightBracket => {
                let mut s = String::new();
                push_char(&mut s, ']');
                proof {
                    reveal_strlit("]");
                    assert(s@ =~= "]"@);
                }
                s
            },
            Symbol::Comma => {
                let mut s = String::new();
                push_char(&mut s, ',');
                proof {
                    reveal_strlit(",");
                    assert(s@ =~= ","@);
                }
                s
            },
            Symbol::DoubleQuote => {
                let mut s = String::new();
                push_char(&mut s, '"');
                proof {
                    reveal_strlit("\"");
                    assert(s@ =~= "\""@);
                }
                s
            },
            Symbol::Whitespace => {
                let mut s = String::new();
                push_char(&mut s, ' ');
                proof {
                    reveal_strlit(" ");
                    assert(s@ =~= " "@);
                }
                s
            },
            Symbol::Newline => {
                let mut s = String::new();
                push_char(&mut s, '\n');
                proof {
                    reveal_strlit("\n");
                    assert(s@ =~= "\n"@);
                }
                s
            },
        }
    }

    /// The word's text, where the symbol is a word.
    pub fn word(&self) -> (r: Option<&String>)
        ensures
            match r {
                Some(w) => self.spec_word() == Some(w@),
                None => self.spec_word() is None,
            },
    {
        match self {
            Symbol::Word(w) => Some(w),
            _ => None,
        }
    }
}

} // verus!
