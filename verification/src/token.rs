use vstd::prelude::*;

verus! {

/// One input token, as the parser sees it. `Ident` carries the text of
/// an identifier; `Punct` a single punctuation character; `Other`
/// stands for every further token kind (a literal, a bracketed group),
/// none of which the grammar accepts.
#[derive(Debug)]
pub enum Token {
    Ident(String),
    Punct(char),
    Other,
}

/// The mathematical content of a token.
pub enum TokenV {
    Ident(Seq<char>),
    Punct(char),
    Other,
}

impl View for Token {
    type V = TokenV;

    open spec fn view(&self) -> TokenV {
        match self {
            Token::Ident(s) => TokenV::Ident(s@),
            Token::Punct(c) => TokenV::Punct(*c),
            Token::Other => TokenV::Other,
        }
    }
}

/// The views of a whole token sequence.
pub open spec fn token_views(s: Seq<Token>) -> Seq<TokenV> {
    s.map_values(|t: Token| t@)
}

} // verus!
