use vstd::prelude::*;
use vstd::string::StringExecFns;
use crate::soft_binds::error::Error;
use crate::soft_binds::tiny_lexer::{spec_tokenize_from, tokenize, tokens_model, Token,
    TokenModel};

verus! {

/// A parsed key bind: the tokens of its key-bind string.
pub struct Keys {
    pub tokens: Vec<Token>,
}

impl Keys {
    /// Parses a key-bind string such as `Ctrl+Shift+A`.
    pub fn new(key_string: &str) -> (r: Result<Keys, Error>)
        requires
            key_string@.len() < 0x100000000,
        ensures
            match r {
                Ok(k) => spec_tokenize_from(key_string@, 0) == Ok::<Seq<TokenModel>, (char, int)>(
                    tokens_model(k.tokens@),
                ),
                Err(e) => match e {
                    Error::UnknownKeyBindChar { char: c, position: p } => spec_tokenize_from(
                        key_string@,
                        0,
                    ) == Err::<Seq<TokenModel>, (char, int)>((c, p as int)),
                    _ => false,
                },
            },
    {
        match tokenize(String::from_str(key_string)) {
            Ok(tokens) => Ok(Keys { tokens }),
            Err(e) => Err(e),
        }
    }
}

} // verus!
