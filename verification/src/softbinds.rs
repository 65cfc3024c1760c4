use vstd::prelude::*;
use vstd::string::StringExecFns;
use crate::document::chars::{chars_to_string, str_chars, subchars};
use crate::document::parse::lemma_find_skip;
use crate::document::scan::{find_char, spec_find};
use crate::soft_binds::egui_map::{key_from_name, key_of_name};
use crate::soft_binds::tiny_lexer::{is_space, space_char};

verus! {

// A looser key-bind reader: the whole string is normalized (lower-cased,
// trimmed, first letter capitalized), split at `+`, and each piece resolved
// to an egui key by name.  Case folding is Unicode case folding, done by the
// standard library and named here rather than restated.
/// Parses a key-bind string directly into egui keys.
pub trait SoftbindsExt {
    fn softbinds(keybind_str: &str) -> Result<Vec<egui::Key>, String>;
}

/// What `str::to_lowercase` returns: the Unicode lowercase mapping of the
/// text, a function of its characters alone.
pub uninterp spec fn lower_of(s: Seq<char>) -> Seq<char>;

/// What `char::to_uppercase` returns: the Unicode uppercase mapping of one
/// character, a function of the character alone.
pub uninterp spec fn upper_of_char(c: char) -> Seq<char>;

/// Relies on `str::to_lowercase`: Unicode lowercasing; an empty string
/// stays empty.
#[verifier::external_body]
fn to_lowercase_str(s: &str) -> (r: String)
    ensures
        r@ == lower_of(s@),
        s@.len() == 0 ==> r@.len() == 0,
{
    s.to_lowercase()
}

/// Relies on `char::to_uppercase`: the uppercase mapping of the character,
/// collected into a string.
#[verifier::external_body]
fn char_to_uppercase(c: char) -> (r: String)
    ensures
        r@ == upper_of_char(c),
{
    c.to_uppercase().collect::<String>()
}

/// The first index at or after `i` that is not whitespace.
pub open spec fn spec_skip_space(s: Seq<char>, i: int) -> int
    decreases s.len() - i,
{
    if i >= s.len() || !is_space(s[i]) {
        i
    } else {
        spec_skip_space(s, i + 1)
    }
}

/// The index after `j` walking left over whitespace.
pub open spec fn spec_rtrim_space(s: Seq<char>, j: int) -> int
    decreases j,
{
    if j <= 0 {
        0
    } else if is_space(s[j - 1]) {
        spec_rtrim_space(s, j - 1)
    } else {
        j
    }
}

/// The string with surrounding whitespace removed.
pub open spec fn spec_trim_ws(s: Seq<char>) -> Seq<char> {
    let a = spec_skip_space(s, 0);
    let b = spec_rtrim_space(s, s.len() as int);
    if a <= b {
        s.subrange(a, b)
    } else {
        Seq::<char>::empty()
    }
}

/// Lower-cased, trimmed, first character replaced by its uppercase mapping.
pub open spec fn spec_normalize(s: Seq<char>) -> Seq<char> {
    let t = spec_trim_ws(lower_of(s));
    if t.len() == 0 {
        t
    } else {
        upper_of_char(t[0]) + t.skip(1)
    }
}

/// The string split at `+` separators.
pub open spec fn spec_split_plus(s: Seq<char>) -> Seq<Seq<char>>
    decreases s.len(),
{
    let i = spec_find(s, '+', 0);
    if 0 <= i < s.len() {
        seq![s.take(i)] + spec_split_plus(s.skip(i + 1))
    } else {
        seq![s]
    }
}

/// The key one `+`-separated piece resolves to.
pub open spec fn spec_piece_key(f: Seq<char>) -> Option<egui::Key> {
    key_of_name(spec_normalize(spec_trim_ws(f)))
}

/// All pieces resolved in order; the first piece without a key is the error.
pub open spec fn spec_collect(parts: Seq<Seq<char>>) -> Result<Seq<egui::Key>, Seq<char>>
    decreases parts.len(),
{
    if parts.len() == 0 {
        Ok(Seq::<egui::Key>::empty())
    } else {
        match spec_piece_key(parts[0]) {
            Some(k) => match spec_collect(parts.skip(1)) {
                Ok(r) => Ok(seq![k] + r),
                Err(e) => Err(e),
            },
            None => Err(parts[0]),
        }
    }
}

/// What a key-bind string resolves to: with a `+` it is a list of pieces,
/// without one it is a single key name.  The error carries the offending
/// piece, or nothing for a single unknown name.
pub open spec fn spec_softbinds(s: Seq<char>) -> Result<Seq<egui::Key>, Option<Seq<char>>> {
    let n = spec_normalize(s);
    if spec_find(n, '+', 0) < n.len() {
        match spec_collect(spec_split_plus(n)) {
            Ok(ks) => Ok(ks),
            Err(f) => Err(Some(f)),
        }
    } else {
        match key_of_name(n) {
            Some(k) => Ok(seq![k]),
            None => Err(None),
        }
    }
}

/// Exec twin of `spec_skip_space`.
fn skip_space(v: &Vec<char>, i: usize) -> (r: usize)
    requires
        i <= v@.len(),
    ensures
        r as int == spec_skip_space(v@, i as int),
        i <= r <= v@.len(),
    decreases v@.len() - i,
{
    if i < v.len() && space_char(v[i]) {
        skip_space(v, i + 1)
    } else {
        i
    }
}

/// Exec twin of `spec_rtrim_space`.
fn rtrim_space(v: &Vec<char>, j: usize) -> (r: usize)
    requires
        j <= v@.len(),
    ensures
        r as int == spec_rtrim_space(v@, j as int),
        r <= j,
    decreases j,
{
    if j > 0 && space_char(v[j - 1]) {
        rtrim_space(v, j - 1)
    } else {
        j
    }
}

/// Exec twin of `spec_trim_ws`.
fn trim_ws_vec(v: &Vec<char>) -> (r: Vec<char>)
    ensures
        r@ == spec_trim_ws(v@),
{
    let a = skip_space(v, 0);
    let b = rtrim_space(v, v.len());
    if a <= b {
        subchars(v, a, b)
    } else {
        proof {
            assert(spec_trim_ws(v@) =~= Seq::<char>::empty());
        }
        Vec::new()
    }
}

/// Normalizes a key-bind string: Unicode lower case, trimmed, first
/// character replaced by its uppercase mapping.
pub fn normalize(s: &str) -> (r: String)
    ensures
        r@ == spec_normalize(s@),
{
    let low = to_lowercase_str(s);
    let lv = str_chars(low.as_str());
    let t = trim_ws_vec(&lv);
    if t.len() == 0 {
        return String::new();
    }
    let mut r = char_to_uppercase(t[0]);
    let rest = subchars(&t, 1, t.len());
    let rest_s = chars_to_string(&rest);
    r.append(rest_s.as_str());
    proof {
        assert(rest@ =~= t@.skip(1));
    }
    r
}

/// Splits at `+` separators.
fn split_plus(cv: &Vec<char>) -> (r: Vec<Vec<char>>)
    ensures
        r@.map_values(|v: Vec<char>| v@) == spec_split_plus(cv@),
{
    let mut parts: Vec<Vec<char>> = Vec::new();
    let mut start: usize = 0;
    proof {
        assert(cv@.skip(0) =~= cv@);
        assert(parts@.map_values(|v: Vec<char>| v@) =~= Seq::<Seq<char>>::empty());
    }
    loop
        invariant
            start <= cv@.len(),
            spec_split_plus(cv@) =~= parts@.map_values(|v: Vec<char>| v@) + spec_split_plus(
                cv@.skip(start as int),
            ),
        decreases cv@.len() - start,
    {
        let j = find_char(cv, '+', start);
        proof {
            lemma_find_skip(cv@, '+', start as int);
        }
        if j < cv.len() {
            let part = subchars(cv, start, j);
            proof {
                let u = cv@.skip(start as int);
                let iu = spec_find(u, '+', 0);
                assert(iu == j - start);
                assert(u.take(iu) =~= cv@.subrange(start as int, j as int));
                assert(u.skip(iu + 1) =~= cv@.skip(j + 1));
                assert(parts@.push(part).map_values(|v: Vec<char>| v@) =~= parts@.map_values(
                    |v: Vec<char>| v@,
                ).push(part@));
                assert(parts@.map_values(|v: Vec<char>| v@).push(u.take(iu)) + spec_split_plus(
                    cv@.skip(j + 1),
                ) =~= parts@.map_values(|v: Vec<char>| v@) + spec_split_plus(u));
            }
            parts.push(part);
            start = j + 1;
        } else {
            let part = subchars(cv, start, cv.len());
            proof {
                let u = cv@.skip(start as int);
                assert(u =~= cv@.subrange(start as int, cv@.len() as int));
                assert(spec_split_plus(u) =~= seq![u]);
                assert(parts@.push(part).map_values(|v: Vec<char>| v@) =~= parts@.map_values(
                    |v: Vec<char>| v@,
                ).push(part@));
                assert(parts@.map_values(|v: Vec<char>| v@).push(u) =~= parts@.map_values(
                    |v: Vec<char>| v@,
                ) + seq![u]);
            }
            parts.push(part);
            return parts;
        }
    }
}

impl SoftbindsExt for egui::Key {
    /// Resolves a whole key-bind string to egui keys: the exact keys of
    /// [`spec_softbinds`] on success, and an error message naming the piece
    /// (or the whole string) that resolves to no key.
    fn softbinds(keybind_str: &str) -> (r: Result<Vec<egui::Key>, String>)
        ensures
            match r {
                Ok(ks) => spec_softbinds(keybind_str@) == Ok::<Seq<egui::Key>, Option<Seq<char>>>(
                    ks@,
                ),
                Err(_) => spec_softbinds(keybind_str@) is Err,
            },
    {
        let n = normalize(keybind_str);
        let nv = str_chars(n.as_str());
        let plus = find_char(&nv, '+', 0);
        if plus < nv.len() {
            let parts = split_plus(&nv);
            let ghost pm = parts@.map_values(|v: Vec<char>| v@);
            let mut keys: Vec<egui::Key> = Vec::new();
            let mut i: usize = 0;
            proof {
                assert(pm.skip(0) =~= pm);
            }
            while i < parts.len()
                invariant
                    pm == parts@.map_values(|v: Vec<char>| v@),
                    pm == spec_split_plus(spec_normalize(keybind_str@)),
                    spec_find(spec_normalize(keybind_str@), '+', 0) < spec_normalize(
                        keybind_str@,
                    ).len(),
                    i <= parts@.len(),
                    spec_collect(pm) == (match spec_collect(pm.skip(i as int)) {
                        Ok(rest) => Ok::<Seq<egui::Key>, Seq<char>>(keys@ + rest),
                        Err(e) => Err::<Seq<egui::Key>, Seq<char>>(e),
                    }),
                decreases parts@.len() - i,
            {
                proof {
                    assert(pm.skip(i as int)[0] == pm[i as int]);
                    assert(pm.skip(i as int).skip(1) =~= pm.skip(i + 1));
                    assert(pm[i as int] == parts@[i as int]@);
                }
                let piece = trim_ws_vec(&parts[i]);
                let piece_str = chars_to_string(&piece);
                let name = normalize(piece_str.as_str());
                match key_from_name(name.as_str()) {
                    Some(k) => {
                        let ghost keys0 = keys@;
                        keys.push(k);
                        proof {
                            if spec_collect(pm.skip(i + 1)) is Ok {
                                let rest = spec_collect(pm.skip(i + 1))->Ok_0;
                                assert(keys0 + (seq![k] + rest) =~= keys@ + rest);
                            }
                        }
                    },
                    None => {
                        let mut msg = chars_to_string(&parts[i]);
                        msg.append(" is not a known key");
                        return Err(msg);
                    },
                }
                i = i + 1;
            }
            proof {
                assert(pm.skip(pm.len() as int) =~= Seq::<Seq<char>>::empty());
                assert(keys@ + Seq::<egui::Key>::empty() =~= keys@);
            }
            Ok(keys)
        } else {
            match key_from_name(n.as_str()) {
                Some(k) => {
                    let mut keys: Vec<egui::Key> = Vec::new();
                    keys.push(k);
                    proof {
                        assert(keys@ =~= seq![k]);
                    }
                    Ok(keys)
                },
                None => Err(
                    String::from_str("Given string is not using a known formatting structure"),
                ),
            }
        }
    }
}

} // verus!
