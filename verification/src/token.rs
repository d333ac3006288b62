//! The tokens of an annotation's arguments, as the grammar reads them.

use vstd::prelude::*;
use vstd::string::*;

verus! {

/// Where a token stands: the index of the annotation among those of its field,
/// and the index of the token among the annotation's arguments.
#[derive(Clone, Copy, Debug, PartialEq, Eq, Structural)]
pub struct Place {
    pub attr: usize,
    pub token: usize,
}

/// A string literal of an annotation: its text as it was written, quotes
/// included, and where it stands.
#[derive(Clone, Debug, PartialEq, Eq)]
pub struct Literal {
    pub text: String,
    pub place: Place,
}

/// What a `Literal` stands for: the characters of its text, and its place.
pub struct LiteralView {
    pub text: Seq<char>,
    pub place: Place,
}

impl View for Literal {
    type V = LiteralView;

    open spec fn view(&self) -> LiteralView {
        LiteralView { text: self.text@, place: self.place }
    }
}

/// One token of an annotation's arguments.
#[derive(Clone, Debug, PartialEq, Eq)]
pub enum Token {
    /// An identifier, by its text.
    Ident(String),
    /// One punctuation character.
    Punct(char),
    /// A string literal, by its text as it was written, quotes included.
    Str(String),
    /// Any other token.
    Other,
}

/// What a `Token` stands for: its kind, with the characters of its text.
pub enum TokenView {
    Ident(Seq<char>),
    Punct(char),
    Str(Seq<char>),
    Other,
}

impl View for Token {
    type V = TokenView;

    open spec fn view(&self) -> TokenView {
        match *self {
            Token::Ident(s) => TokenView::Ident(s@),
            Token::Punct(c) => TokenView::Punct(c),
            Token::Str(s) => TokenView::Str(s@),
            Token::Other => TokenView::Other,
        }
    }
}

/// The tokens of a list, each by what it stands for.
pub open spec fn tokens_view(tokens: Seq<Token>) -> Seq<TokenView> {
    tokens.map_values(|t: Token| t@)
}

impl TokenView {
    /// The token is the identifier `word`.
    pub open spec fn is_word(self, word: Seq<char>) -> bool {
        self == TokenView::Ident(word)
    }

    /// The token is the punctuation character `c`.
    pub open spec fn is_punct(self, c: char) -> bool {
        self == TokenView::Punct(c)
    }
}

impl Token {
    /// Tells whether the token is the identifier `word`.
    pub fn has_word(&self, word: &str) -> (r: bool)
        ensures
            r == self@.is_word(word@),
    {
        match self {
            Token::Ident(s) => {
                let w = String::from_str(word);
                *s == w
            },
            _ => false,
        }
    }

    /// Tells whether the token is the punctuation character `c`.
    pub fn has_punct(&self, c: char) -> (r: bool)
        ensures
            r == self@.is_punct(c),
    {
        match self {
            Token::Punct(p) => *p == c,
            _ => false,
        }
    }
}

impl Literal {
    /// A literal with the same text at the same place.
    pub fn dup(&self) -> (r: Literal)
        ensures
            r@ == self@,
    {
        Literal { text: self.text.clone(), place: self.place }
    }
}

} // verus!
