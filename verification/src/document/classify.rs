use vstd::prelude::*;
use crate::document::{line_model, strings_model, DocLine, LineModel, ScalarModel, TomlValue};
use crate::document::chars::{chars_to_string, subchars, substring_of};
use crate::document::scan::{
    bare_char, find_char, is_bare_char, is_ws, rest_ok, scan_basic, scan_bracket, skip_ws,
    spec_find, spec_rest_ok, spec_scan_basic, spec_scan_bracket, spec_skip_ws, spec_word_end,
    word_end, ws_char,
};
use crate::document::value::{decode_basic_from, spec_decode_basic, spec_word_scalar, word_scalar};

verus! {

// Classification of a single line of document text.  `spec_classify` is the
// grammar of the supported line forms; `classify_line` follows it exactly.
// A line that classifies as `None` is outside the supported subset and makes
// the whole document parse fail, so no text is ever misattributed.
/// The first index after `j` walking left over whitespace: trailing
/// whitespace of `l.take(j)` starts here.
pub open spec fn spec_rtrim(l: Seq<char>, j: int) -> int
    decreases j,
{
    if j <= 0 {
        0
    } else if is_ws(l[j - 1]) {
        spec_rtrim(l, j - 1)
    } else {
        j
    }
}

/// The line with surrounding whitespace removed.
pub open spec fn spec_trim(l: Seq<char>) -> Seq<char> {
    let a = spec_skip_ws(l, 0);
    let b = spec_rtrim(l, l.len() as int);
    if a <= b {
        l.subrange(a, b)
    } else {
        Seq::<char>::empty()
    }
}

/// A valid bare key segment: non-empty, bare characters only.
pub open spec fn spec_valid_seg(s: Seq<char>) -> bool {
    s.len() > 0 && (forall|i: int| 0 <= i < s.len() ==> is_bare_char(s[i]))
}

/// Parses a dotted bare key into its trimmed segments.
pub open spec fn spec_parse_key(k: Seq<char>) -> Option<Seq<Seq<char>>>
    decreases k.len(),
{
    let i = spec_find(k, '.', 0);
    if 0 <= i < k.len() {
        let s = spec_trim(k.take(i));
        if spec_valid_seg(s) {
            match spec_parse_key(k.skip(i + 1)) {
                None => None,
                Some(r) => Some(seq![s] + r),
            }
        } else {
            None
        }
    } else {
        let s = spec_trim(k);
        if spec_valid_seg(s) {
            Some(seq![s])
        } else {
            None
        }
    }
}

/// The value token starting at `vs`: its end index and its scalar, or `None`
/// when the token does not fit on the line.
pub open spec fn spec_token(l: Seq<char>, vs: int) -> Option<(int, ScalarModel)> {
    if vs < l.len() && l[vs] == '"' {
        let e = spec_scan_basic(l, vs + 1);
        if e == -1 {
            None
        } else {
            let scalar = match spec_decode_basic(l.subrange(vs + 1, e - 1)) {
                Some(d) => ScalarModel::Str(d),
                None => ScalarModel::Other(l.subrange(vs, e)),
            };
            Some((e, scalar))
        }
    } else if vs < l.len() && l[vs] == '\'' {
        let q = spec_find(l, '\'', vs + 1);
        if q == l.len() {
            None
        } else {
            Some((q + 1, ScalarModel::Str(l.subrange(vs + 1, q))))
        }
    } else if vs < l.len() && (l[vs] == '[' || l[vs] == '{') {
        let e = spec_scan_bracket(l, vs, 0);
        if e == -1 {
            None
        } else {
            Some((e, ScalarModel::Other(l.subrange(vs, e))))
        }
    } else {
        let e = spec_word_end(l, vs);
        Some((e, spec_word_scalar(l.subrange(vs, e))))
    }
}

/// A header line: `[path]` or `[[path]]`, then only whitespace or a comment.
/// The caller guarantees the first non-blank character is `[`.
pub open spec fn spec_classify_header(l: Seq<char>) -> Option<LineModel> {
    let i0 = spec_skip_ws(l, 0);
    let array = i0 + 2 < l.len() && l[i0 + 1] == '[';
    let inner_start = if array {
        i0 + 2
    } else {
        i0 + 1
    };
    let j = spec_find(l, ']', inner_start);
    if j == l.len() {
        None
    } else {
        let close_end: int = if array {
            if j + 1 < l.len() && l[j + 1] == ']' {
                j + 2
            } else {
                -1
            }
        } else {
            j + 1
        };
        if close_end == -1 {
            None
        } else if !spec_rest_ok(l, close_end) {
            None
        } else {
            match spec_parse_key(l.subrange(inner_start, j)) {
                None => None,
                Some(p) => Some(LineModel::Header { text: l, path: p, array }),
            }
        }
    }
}

/// A `key = value` line.
pub open spec fn spec_classify_keyval(l: Seq<char>) -> Option<LineModel> {
    let e = spec_find(l, '=', 0);
    if e == l.len() {
        None
    } else {
        match spec_parse_key(l.take(e)) {
            None => None,
            Some(key) => {
                let vs = spec_skip_ws(l, e + 1);
                match spec_token(l, vs) {
                    None => None,
                    Some((end, scalar)) => {
                        if !spec_rest_ok(l, end) {
                            None
                        } else {
                            Some(
                                LineModel::KeyVal {
                                    prefix: l.take(vs),
                                    value_text: l.subrange(vs, end),
                                    suffix: l.skip(end),
                                    key,
                                    value: scalar,
                                },
                            )
                        }
                    },
                }
            },
        }
    }
}

/// The grammar of one line: blank and comment lines are kept verbatim, `[`
/// starts a header, anything else must be a `key = value` line.
pub open spec fn spec_classify(l: Seq<char>) -> Option<LineModel> {
    let i = spec_skip_ws(l, 0);
    if i == l.len() {
        Some(LineModel::Other { text: l })
    } else if l[i] == '#' {
        Some(LineModel::Other { text: l })
    } else if l[i] == '[' {
        spec_classify_header(l)
    } else {
        spec_classify_keyval(l)
    }
}

/// Whichever form a classified line takes, its exact text is preserved.
pub proof fn lemma_classify_text(l: Seq<char>)
    ensures
        match spec_classify(l) {
            Some(m) => crate::document::model_line_text(m) == l,
            None => true,
        },
{
    if spec_classify(l) is Some {
        let m = spec_classify(l)->Some_0;
        match m {
            LineModel::KeyVal { prefix, value_text, suffix, .. } => {
                let e = spec_find(l, '=', 0);
                let vs = spec_skip_ws(l, e + 1);
                let tok = spec_token(l, vs)->Some_0;
                let end = tok.0;
                assert(prefix == l.take(vs));
                assert(value_text == l.subrange(vs, end));
                assert(suffix == l.skip(end));
                lemma_find_bounds(l, '=', 0);
                lemma_skip_ws_bounds(l, e + 1);
                lemma_token_bounds(l, vs);
                assert(l.take(vs) + l.subrange(vs, end) + l.skip(end) =~= l);
            },
            _ => {},
        }
    }
}

pub proof fn lemma_skip_ws_bounds(l: Seq<char>, i: int)
    requires
        0 <= i <= l.len(),
    ensures
        i <= spec_skip_ws(l, i) <= l.len(),
    decreases l.len() - i,
{
    if i < l.len() && is_ws(l[i]) {
        lemma_skip_ws_bounds(l, i + 1);
    }
}

pub proof fn lemma_find_bounds(l: Seq<char>, c: char, i: int)
    requires
        0 <= i <= l.len(),
    ensures
        i <= spec_find(l, c, i) <= l.len(),
    decreases l.len() - i,
{
    if i < l.len() && l[i] != c {
        lemma_find_bounds(l, c, i + 1);
    }
}

pub proof fn lemma_scan_basic_bounds(l: Seq<char>, j: int)
    requires
        0 <= j <= l.len(),
        spec_scan_basic(l, j) != -1,
    ensures
        j < spec_scan_basic(l, j) <= l.len(),
    decreases l.len() - j,
{
    if j < l.len() && l[j] != '"' {
        if l[j] == '\\' {
            if j + 1 < l.len() {
                lemma_scan_basic_bounds(l, j + 2);
            }
        } else {
            lemma_scan_basic_bounds(l, j + 1);
        }
    }
}

pub proof fn lemma_scan_bracket_bounds(l: Seq<char>, j: int, depth: int)
    requires
        0 <= j <= l.len(),
        spec_scan_bracket(l, j, depth) != -1,
    ensures
        j < spec_scan_bracket(l, j, depth) <= l.len(),
    decreases l.len() - j,
{
    if j < l.len() {
        if l[j] == '[' || l[j] == '{' {
            lemma_scan_bracket_bounds(l, j + 1, depth + 1);
        } else if l[j] == ']' || l[j] == '}' {
            if depth > 1 {
                lemma_scan_bracket_bounds(l, j + 1, depth - 1);
            }
        } else {
            lemma_scan_bracket_bounds(l, j + 1, depth);
        }
    }
}

pub proof fn lemma_word_end_bounds(l: Seq<char>, j: int)
    requires
        0 <= j <= l.len(),
    ensures
        j <= spec_word_end(l, j) <= l.len(),
    decreases l.len() - j,
{
    if j < l.len() && !is_ws(l[j]) && l[j] != '#' {
        lemma_word_end_bounds(l, j + 1);
    }
}

/// A token that scans has its end inside the line.
pub proof fn lemma_token_bounds(l: Seq<char>, vs: int)
    requires
        0 <= vs <= l.len(),
        spec_token(l, vs) is Some,
    ensures
        vs <= spec_token(l, vs)->Some_0.0 <= l.len(),
{
    if vs < l.len() && l[vs] == '"' {
        lemma_scan_basic_bounds(l, vs + 1);
    } else if vs < l.len() && l[vs] == '\'' {
        lemma_find_bounds(l, '\'', vs + 1);
    } else if vs < l.len() && (l[vs] == '[' || l[vs] == '{') {
        lemma_scan_bracket_bounds(l, vs, 0);
    } else {
        lemma_word_end_bounds(l, vs);
    }
}

/// Exec twin of `spec_rtrim`.
pub fn rtrim(l: &Vec<char>, j: usize) -> (r: usize)
    requires
        j <= l@.len(),
    ensures
        r == spec_rtrim(l@, j as int),
        r <= j,
    decreases j,
{
    if j > 0 && ws_char(l[j - 1]) {
        rtrim(l, j - 1)
    } else {
        j
    }
}

/// Exec twin of `spec_trim`.
pub fn trim_vec(l: &Vec<char>) -> (r: Vec<char>)
    ensures
        r@ == spec_trim(l@),
{
    let a = skip_ws(l, 0);
    let b = rtrim(l, l.len());
    if a <= b {
        subchars(l, a, b)
    } else {
        proof {
            assert(spec_trim(l@) =~= Seq::<char>::empty());
        }
        Vec::new()
    }
}

/// Exec twin of `spec_valid_seg`.
pub fn valid_seg(s: &Vec<char>) -> (r: bool)
    ensures
        r == spec_valid_seg(s@),
{
    if s.len() == 0 {
        return false;
    }
    let mut i: usize = 0;
    while i < s.len()
        invariant
            i <= s@.len(),
            forall|k: int| 0 <= k < i ==> is_bare_char(s@[k]),
        decreases s@.len() - i,
    {
        if !bare_char(s[i]) {
            return false;
        }
        i = i + 1;
    }
    true
}

/// Exec twin of `spec_parse_key`.
pub fn parse_key(k: &Vec<char>) -> (r: Option<Vec<String>>)
    ensures
        match r {
            Some(v) => spec_parse_key(k@) == Some(strings_model(v@)),
            None => spec_parse_key(k@) is None,
        },
    decreases k@.len(),
{
    let i = find_char(k, '.', 0);
    if i == k.len() {
        let s = trim_vec(k);
        if valid_seg(&s) {
            let mut v: Vec<String> = Vec::new();
            v.push(chars_to_string(&s));
            proof {
                assert(strings_model(v@) =~= seq![s@]);
            }
            Some(v)
        } else {
            None
        }
    } else {
        let head = subchars(k, 0, i);
        proof {
            assert(head@ == k@.take(i as int));
        }
        let s = trim_vec(&head);
        if !valid_seg(&s) {
            return None;
        }
        let rest = subchars(k, i + 1, k.len());
        proof {
            assert(rest@ =~= k@.skip(i + 1));
        }
        match parse_key(&rest) {
            None => None,
            Some(mut tail) => {
                let seg = chars_to_string(&s);
                tail.insert(0, seg);
                proof {
                    assert(strings_model(tail@) =~= seq![s@] + strings_model(tail@.skip(1)));
                }
                Some(tail)
            },
        }
    }
}

/// Exec twin of `spec_token`: returns the token end and the scalar.
pub fn token_at(l: &Vec<char>, vs: usize) -> (r: Option<(usize, TomlValue)>)
    requires
        vs <= l@.len(),
    ensures
        match r {
            Some(t) => spec_token(l@, vs as int) == Some(
                (t.0 as int, crate::document::scalar_model(t.1)),
            ) && vs <= t.0 <= l@.len(),
            None => spec_token(l@, vs as int) is None,
        },
{
    if vs < l.len() && l[vs] == '"' {
        match scan_basic(l, vs + 1) {
            None => None,
            Some(e) => {
                let inner = subchars(l, vs + 1, e - 1);
                let scalar = match decode_basic_from(&inner, 0) {
                    Some(d) => {
                        proof {
                            assert(inner@.skip(0) =~= inner@);
                        }
                        TomlValue::Str(chars_to_string(&d))
                    },
                    None => {
                        proof {
                            assert(inner@.skip(0) =~= inner@);
                        }
                        TomlValue::Other(substring_of(l, vs, e))
                    },
                };
                Some((e, scalar))
            },
        }
    } else if vs < l.len() && l[vs] == '\'' {
        let q = find_char(l, '\'', vs + 1);
        if q == l.len() {
            None
        } else {
            Some((q + 1, TomlValue::Str(substring_of(l, vs + 1, q))))
        }
    } else if vs < l.len() && (l[vs] == '[' || l[vs] == '{') {
        match scan_bracket(l, vs, 0) {
            None => None,
            Some(e) => Some((e, TomlValue::Other(substring_of(l, vs, e)))),
        }
    } else {
        let e = word_end(l, vs);
        let w = subchars(l, vs, e);
        Some((e, word_scalar(&w)))
    }
}

/// Exec twin of `spec_classify`: classifies one line of text.
pub fn classify_line(l: &Vec<char>) -> (r: Option<DocLine>)
    ensures
        match r {
            Some(dl) => spec_classify(l@) == Some(line_model(dl)),
            None => spec_classify(l@) is None,
        },
{
    let i = skip_ws(l, 0);
    if i == l.len() {
        return Some(DocLine::Other { text: chars_to_string(l) });
    }
    if l[i] == '#' {
        return Some(DocLine::Other { text: chars_to_string(l) });
    }
    if l[i] == '[' {
        // Header line.
        let array = l.len() - i > 2 && l[i + 1] == '[';
        let inner_start = if array {
            i + 2
        } else {
            i + 1
        };
        let j = find_char(l, ']', inner_start);
        if j == l.len() {
            return None;
        }
        let close_end: usize = if array {
            if l.len() - j > 1 && l[j + 1] == ']' {
                j + 2
            } else {
                return None;
            }
        } else {
            j + 1
        };
        if !rest_ok(l, close_end) {
            return None;
        }
        let inner = subchars(l, inner_start, j);
        match parse_key(&inner) {
            None => None,
            Some(path) => Some(
                DocLine::Header { text: chars_to_string(l), path, array },
            ),
        }
    } else {
        // Key-value line.
        let e = find_char(l, '=', 0);
        if e == l.len() {
            return None;
        }
        let keypart = subchars(l, 0, e);
        proof {
            assert(keypart@ == l@.take(e as int));
        }
        match parse_key(&keypart) {
            None => None,
            Some(key) => {
                let vs = skip_ws(l, e + 1);
                match token_at(l, vs) {
                    None => None,
                    Some((end, value)) => {
                        if !rest_ok(l, end) {
                            return None;
                        }
                        let prefix = substring_of(l, 0, vs);
                        let value_text = substring_of(l, vs, end);
                        let suffix = substring_of(l, end, l.len());
                        proof {
                            assert(prefix@ == l@.take(vs as int));
                            assert(suffix@ =~= l@.skip(end as int));
                        }
                        Some(DocLine::KeyVal { prefix, value_text, suffix, key, value })
                    },
                }
            },
        }
    }
}

} // verus!
