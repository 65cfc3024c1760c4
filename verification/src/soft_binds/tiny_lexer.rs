use vstd::prelude::*;
use crate::document::chars::{chars_to_string, str_chars, subchars};
use crate::document::scan::is_digit;
use crate::document::value::{word_is, word_is4, word_is5};
use crate::soft_binds::error::Error;

verus! {

// A small lexer for key-bind strings such as `Ctrl+Shift+A`: whitespace is
// skipped, `+` separates keys, runs of letters and digits become key tokens
// (`ctrl`, `tab` and `shift` in any casing become their own tokens), and any
// other character is an error with its 1-based position.
/// One token of a key-bind string.
#[derive(Debug, PartialEq)]
pub enum Token {
    Plus,
    Ctrl,
    Tab,
    Shift,
    /// Any other key name, normalized to upper case.
    StrKey(String),
}

/// The mathematical model of a [`Token`].
pub enum TokenModel {
    Plus,
    Ctrl,
    Tab,
    Shift,
    StrKey(Seq<char>),
}

pub open spec fn token_model(t: Token) -> TokenModel {
    match t {
        Token::Plus => TokenModel::Plus,
        Token::Ctrl => TokenModel::Ctrl,
        Token::Tab => TokenModel::Tab,
        Token::Shift => TokenModel::Shift,
        Token::StrKey(s) => TokenModel::StrKey(s@),
    }
}

pub open spec fn tokens_model(v: Seq<Token>) -> Seq<TokenModel> {
    v.map_values(|t: Token| token_model(t))
}

/// The whitespace the lexer skips: the Unicode white-space code points.
pub open spec fn is_space(c: char) -> bool {
    (9 <= c as u32 <= 13) || c as u32 == 32 || c as u32 == 0x85 || c as u32 == 0xA0 || c as u32
        == 0x1680 || (0x2000 <= c as u32 <= 0x200A) || c as u32 == 0x2028 || c as u32 == 0x2029
        || c as u32 == 0x202F || c as u32 == 0x205F || c as u32 == 0x3000
}

/// An ASCII letter or digit.
pub open spec fn is_alnum(c: char) -> bool {
    is_digit(c) || (97 <= c as u32 <= 122) || (65 <= c as u32 <= 90)
}

/// An ASCII character folded to lower case.
pub open spec fn lower_char(c: char) -> char {
    if 65 <= c as u32 <= 90 {
        (((c as u32) + 32) as u8) as char
    } else {
        c
    }
}

/// An ASCII character folded to upper case.
pub open spec fn upper_char(c: char) -> char {
    if 97 <= c as u32 <= 122 {
        (((c as u32) - 32) as u8) as char
    } else {
        c
    }
}

pub open spec fn lower_word(w: Seq<char>) -> Seq<char> {
    w.map_values(|c: char| lower_char(c))
}

pub open spec fn upper_word(w: Seq<char>) -> Seq<char> {
    w.map_values(|c: char| upper_char(c))
}

/// The end of a run of letters and digits starting at `i`.
pub open spec fn spec_run_end(s: Seq<char>, i: int) -> int
    decreases s.len() - i,
{
    if i >= s.len() || !is_alnum(s[i]) {
        i
    } else {
        spec_run_end(s, i + 1)
    }
}

/// The token a run of letters and digits stands for.
pub open spec fn spec_word_token(w: Seq<char>) -> TokenModel {
    if lower_word(w) == seq!['c', 't', 'r', 'l'] {
        TokenModel::Ctrl
    } else if lower_word(w) == seq!['t', 'a', 'b'] {
        TokenModel::Tab
    } else if lower_word(w) == seq!['s', 'h', 'i', 'f', 't'] {
        TokenModel::Shift
    } else {
        TokenModel::StrKey(upper_word(w))
    }
}

/// The grammar of key-bind strings, from position `i` on.  An error carries
/// the offending character and its 1-based position.
pub open spec fn spec_tokenize_from(s: Seq<char>, i: int) -> Result<Seq<TokenModel>, (char, int)>
    decreases s.len() - i,
{
    if i < 0 || i >= s.len() {
        Ok(Seq::<TokenModel>::empty())
    } else if is_space(s[i]) {
        spec_tokenize_from(s, i + 1)
    } else if s[i] == '+' {
        match spec_tokenize_from(s, i + 1) {
            Ok(r) => Ok(seq![TokenModel::Plus] + r),
            Err(e) => Err(e),
        }
    } else if is_alnum(s[i]) {
        let e0 = spec_run_end(s, i + 1);
        let e = if i + 1 <= e0 <= s.len() {
            e0
        } else {
            i + 1
        };
        let t = spec_word_token(s.subrange(i, e));
        match spec_tokenize_from(s, e) {
            Ok(r) => Ok(seq![t] + r),
            Err(err) => Err(err),
        }
    } else {
        Err((s[i], i + 1))
    }
}

pub(crate) fn space_char(c: char) -> (r: bool)
    ensures
        r == is_space(c),
{
    let u = c as u32;
    (9 <= u && u <= 13) || u == 32 || u == 0x85 || u == 0xA0 || u == 0x1680 || (0x2000 <= u && u
        <= 0x200A) || u == 0x2028 || u == 0x2029 || u == 0x202F || u == 0x205F || u == 0x3000
}

fn alnum_char(c: char) -> (r: bool)
    ensures
        r == is_alnum(c),
{
    let u = c as u32;
    (48 <= u && u <= 57) || (97 <= u && u <= 122) || (65 <= u && u <= 90)
}

fn run_end(s: &Vec<char>, i: usize) -> (r: usize)
    requires
        i <= s@.len(),
    ensures
        r as int == spec_run_end(s@, i as int),
        i <= r <= s@.len(),
    decreases s@.len() - i,
{
    if i < s.len() && alnum_char(s[i]) {
        run_end(s, i + 1)
    } else {
        i
    }
}

/// Folds a word to lower case.
pub(crate) fn lower_vec(w: &Vec<char>) -> (r: Vec<char>)
    ensures
        r@ == lower_word(w@),
{
    let mut r: Vec<char> = Vec::new();
    let mut i: usize = 0;
    while i < w.len()
        invariant
            i <= w@.len(),
            r@ == lower_word(w@.take(i as int)),
        decreases w@.len() - i,
    {
        let c = w[i];
        let u = c as u32;
        let lc = if 65 <= u && u <= 90 {
            ((u + 32) as u8) as char
        } else {
            c
        };
        r.push(lc);
        i = i + 1;
        proof {
            assert(lower_word(w@.take(i as int)) =~= lower_word(w@.take(i - 1)).push(
                lower_char(w@[i - 1]),
            ));
        }
    }
    proof {
        assert(lower_word(w@.take(w@.len() as int)) =~= lower_word(w@));
    }
    r
}

/// Folds a word to upper case.
fn upper_vec(w: &Vec<char>) -> (r: Vec<char>)
    ensures
        r@ == upper_word(w@),
{
    let mut r: Vec<char> = Vec::new();
    let mut i: usize = 0;
    while i < w.len()
        invariant
            i <= w@.len(),
            r@ == upper_word(w@.take(i as int)),
        decreases w@.len() - i,
    {
        let c = w[i];
        let u = c as u32;
        let uc = if 97 <= u && u <= 122 {
            ((u - 32) as u8) as char
        } else {
            c
        };
        r.push(uc);
        i = i + 1;
        proof {
            assert(upper_word(w@.take(i as int)) =~= upper_word(w@.take(i - 1)).push(
                upper_char(w@[i - 1]),
            ));
        }
    }
    proof {
        assert(upper_word(w@.take(w@.len() as int)) =~= upper_word(w@));
    }
    r
}

fn word_token(w: &Vec<char>) -> (r: Token)
    ensures
        token_model(r) == spec_word_token(w@),
{
    let lw = lower_vec(w);
    if word_is4(&lw, 'c', 't', 'r', 'l') {
        Token::Ctrl
    } else if word_is(&lw, 't', 'a', 'b') {
        Token::Tab
    } else if word_is5(&lw, 's', 'h', 'i', 'f', 't') {
        Token::Shift
    } else {
        let uw = upper_vec(w);
        Token::StrKey(chars_to_string(&uw))
    }
}

/// Tokenizes a key-bind string.  Succeeds exactly when the string holds only
/// whitespace, `+` separators and runs of letters and digits; otherwise the
/// error names the first unknown character and its 1-based position.
pub fn tokenize(key_binds: String) -> (r: Result<Vec<Token>, Error>)
    requires
        key_binds@.len() < 0x100000000,
    ensures
        match r {
            Ok(v) => spec_tokenize_from(key_binds@, 0) == Ok::<Seq<TokenModel>, (char, int)>(
                tokens_model(v@),
            ),
            Err(e) => match e {
                Error::UnknownKeyBindChar { char: c, position: p } => spec_tokenize_from(
                    key_binds@,
                    0,
                ) == Err::<Seq<TokenModel>, (char, int)>((c, p as int)),
                _ => false,
            },
        },
{
    let s = str_chars(key_binds.as_str());
    let ghost sv = key_binds@;
    let mut out: Vec<Token> = Vec::new();
    let mut i: usize = 0;
    while i < s.len()
        invariant
            sv == key_binds@,
            sv == s@,
            sv.len() < 0x100000000,
            i <= sv.len(),
            spec_tokenize_from(sv, 0) == (match spec_tokenize_from(sv, i as int) {
                Ok(rest) => Ok::<Seq<TokenModel>, (char, int)>(tokens_model(out@) + rest),
                Err(e) => Err::<Seq<TokenModel>, (char, int)>(e),
            }),
        decreases sv.len() - i,
    {
        let c = s[i];
        if space_char(c) {
            i = i + 1;
        } else if c == '+' {
            let ghost out0 = out@;
            out.push(Token::Plus);
            i = i + 1;
            proof {
                assert(tokens_model(out@) =~= tokens_model(out0).push(TokenModel::Plus));
                if spec_tokenize_from(sv, i as int) is Ok {
                    let rest = spec_tokenize_from(sv, i as int)->Ok_0;
                    assert(tokens_model(out0) + (seq![TokenModel::Plus] + rest) =~= tokens_model(
                        out@,
                    ) + rest);
                }
            }
        } else if alnum_char(c) {
            let e = run_end(&s, i + 1);
            let w = subchars(&s, i, e);
            let tok = word_token(&w);
            let ghost out0 = out@;
            let ghost tm = spec_word_token(sv.subrange(i as int, e as int));
            out.push(tok);
            i = e;
            proof {
                assert(tokens_model(out@) =~= tokens_model(out0).push(tm));
                if spec_tokenize_from(sv, i as int) is Ok {
                    let rest = spec_tokenize_from(sv, i as int)->Ok_0;
                    assert(tokens_model(out0) + (seq![tm] + rest) =~= tokens_model(out@) + rest);
                }
            }
        } else {
            proof {
                assert(spec_tokenize_from(sv, i as int) == Err::<Seq<TokenModel>, _>(
                    (sv[i as int], i + 1),
                ));
                assert(i + 1 < 0x100000000);
                assert(((i + 1) as u32) as int == i + 1);
                assert(spec_tokenize_from(sv, 0) == Err::<Seq<TokenModel>, (char, int)>(
                    (sv[i as int], i + 1),
                ));
                assert(c == sv[i as int]);
            }
            return Err(Error::UnknownKeyBindChar { char: c, position: (i + 1) as u32 });
        }
    }
    proof {
        assert(spec_tokenize_from(sv, sv.len() as int) == Ok::<_, (char, int)>(
            Seq::<TokenModel>::empty(),
        ));
        assert(tokens_model(out@) + Seq::<TokenModel>::empty() =~= tokens_model(out@));
    }
    Ok(out)
}

} // verus!
