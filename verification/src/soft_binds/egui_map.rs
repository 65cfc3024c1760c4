use vstd::prelude::*;
use crate::soft_binds::error::Error;
use crate::soft_binds::keys::Keys;
use crate::soft_binds::tiny_lexer::{tokens_model, Token, TokenModel};

verus! {

#[verifier::external_type_specification]
#[verifier::external_body]
pub struct ExKey(egui::Key);

#[verifier::external_type_specification]
pub struct ExModifiers(egui::Modifiers);

/// What `egui::Key::from_name` returns for a given name: a pure lookup, a
/// function of the name alone.
pub uninterp spec fn key_of_name(name: Seq<char>) -> Option<egui::Key>;

/// Relies on `egui::Key::from_name`: a match over key names whose result
/// depends on the name alone.
#[verifier::external_body]
pub(crate) fn key_from_name(name: &str) -> (r: Option<egui::Key>)
    ensures
        r == key_of_name(name@),
{
    egui::Key::from_name(name)
}

/// The egui keys of a token list: `Tab` and named keys resolve through the
/// key-name lookup, modifiers and separators are skipped, and the first name
/// without an egui key is the error.
pub open spec fn spec_egui_keys(toks: Seq<TokenModel>) -> Result<Seq<egui::Key>, Seq<char>>
    decreases toks.len(),
{
    if toks.len() == 0 {
        Ok(Seq::<egui::Key>::empty())
    } else {
        let head = match toks[0] {
            TokenModel::Tab => Some("Tab"@),
            TokenModel::StrKey(s) => Some(s),
            _ => None,
        };
        match head {
            Some(name) => match key_of_name(name) {
                Some(k) => match spec_egui_keys(toks.skip(1)) {
                    Ok(r) => Ok(seq![k] + r),
                    Err(e) => Err(e),
                },
                None => Err(name),
            },
            None => spec_egui_keys(toks.skip(1)),
        }
    }
}

/// Whether the tokens hold a `Ctrl` modifier.
pub open spec fn spec_has_ctrl(toks: Seq<TokenModel>) -> bool {
    exists|i: int| 0 <= i < toks.len() && toks[i] is Ctrl
}

/// Whether the tokens hold a `Shift` modifier.
pub open spec fn spec_has_shift(toks: Seq<TokenModel>) -> bool {
    exists|i: int| 0 <= i < toks.len() && toks[i] is Shift
}

impl Keys {
    /// Resolves the key tokens to egui keys, skipping the modifiers.
    pub fn egui_keys(&self) -> (r: Result<Vec<egui::Key>, Error>)
        ensures
            match r {
                Ok(ks) => spec_egui_keys(tokens_model(self.tokens@)) == Ok::<Seq<egui::Key>, Seq<char>>(ks@),
                Err(e) => (e matches Error::ParseToEguiKeyFailure { key_string }
                    && spec_egui_keys(tokens_model(self.tokens@)) == Err::<Seq<egui::Key>, _>(
                    key_string@,
                )),
            },
    {
        let ghost toks = tokens_model(self.tokens@);
        let mut keys: Vec<egui::Key> = Vec::new();
        let mut i: usize = 0;
        proof {
            assert(toks.skip(0) =~= toks);
        }
        while i < self.tokens.len()
            invariant
                toks == tokens_model(self.tokens@),
                i <= self.tokens@.len(),
                spec_egui_keys(toks) == (match spec_egui_keys(toks.skip(i as int)) {
                    Ok(rest) => Ok::<Seq<egui::Key>, Seq<char>>(keys@ + rest),
                    Err(e) => Err::<Seq<egui::Key>, Seq<char>>(e),
                }),
            decreases self.tokens@.len() - i,
        {
            let ghost suffix = toks.skip(i as int);
            proof {
                assert(suffix[0] == toks[i as int]);
                assert(suffix.skip(1) =~= toks.skip(i + 1));
                assert(toks[i as int] == crate::soft_binds::tiny_lexer::token_model(
                    self.tokens@[i as int],
                ));
            }
            let looked_up: Option<Option<egui::Key>> = match &self.tokens[i] {
                Token::Tab => Some(key_from_name("Tab")),
                Token::StrKey(key_string) => Some(key_from_name(key_string.as_str())),
                _ => None,
            };
            match looked_up {
                Some(Some(k)) => {
                    let ghost keys0 = keys@;
                    keys.push(k);
                    proof {
                        if spec_egui_keys(toks.skip(i + 1)) is Ok {
                            let rest = spec_egui_keys(toks.skip(i + 1))->Ok_0;
                            assert(keys0 + (seq![k] + rest) =~= keys@ + rest);
                        }
                    }
                },
                Some(None) => {
                    let name = match &self.tokens[i] {
                        Token::Tab => {
                            let mut n = String::new();
                            n.push('T');
                            n.push('a');
                            n.push('b');
                            proof {
                                reveal_strlit("Tab");
                                assert(n@ =~= "Tab"@);
                            }
                            n
                        },
                        Token::StrKey(key_string) => key_string.clone(),
                        _ => {
                            proof {
                                assert(false);
                            }
                            String::new()
                        },
                    };
                    return Err(Error::ParseToEguiKeyFailure { key_string: name });
                },
                None => {},
            }
            i = i + 1;
        }
        proof {
            assert(toks.skip(toks.len() as int) =~= Seq::<TokenModel>::empty());
            assert(keys@ + Seq::<egui::Key>::empty() =~= keys@);
        }
        Ok(keys)
    }

    /// The egui modifiers of the key bind: `Ctrl` and `Shift` tokens set
    /// their flags; nothing else is set.
    pub fn egui_modifiers(&self) -> (r: egui::Modifiers)
        ensures
            r.ctrl == spec_has_ctrl(tokens_model(self.tokens@)),
            r.shift == spec_has_shift(tokens_model(self.tokens@)),
            !r.alt,
            !r.mac_cmd,
            !r.command,
    {
        let ghost toks = tokens_model(self.tokens@);
        let mut ctrl = false;
        let mut shift = false;
        let mut i: usize = 0;
        while i < self.tokens.len()
            invariant
                toks == tokens_model(self.tokens@),
                i <= self.tokens@.len(),
                ctrl == (exists|k: int| 0 <= k < i && toks[k] is Ctrl),
                shift == (exists|k: int| 0 <= k < i && toks[k] is Shift),
            decreases self.tokens@.len() - i,
        {
            proof {
                assert(toks[i as int] == crate::soft_binds::tiny_lexer::token_model(
                    self.tokens@[i as int],
                ));
            }
            match &self.tokens[i] {
                Token::Ctrl => {
                    ctrl = true;
                },
                Token::Shift => {
                    shift = true;
                },
                _ => {},
            }
            i = i + 1;
        }
        egui::Modifiers { alt: false, ctrl, shift, mac_cmd: false, command: false }
    }
}

} // verus!
