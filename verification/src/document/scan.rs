use vstd::prelude::*;

verus! {

// Low-level, index-based scanning over a line of characters.  Every exec
// scanner has a spec twin; the grammar of the document subset is stated by
// the spec functions and the exec code is proved to follow it exactly.
pub open spec fn is_ws(c: char) -> bool {
    c == ' ' || c == '\t'
}

pub open spec fn is_digit(c: char) -> bool {
    48 <= c as u32 <= 57
}

/// Characters allowed in a bare key segment.
pub open spec fn is_bare_char(c: char) -> bool {
    (97 <= c as u32 <= 122) || (65 <= c as u32 <= 90) || is_digit(c) || c == '_' || c == '-'
}

/// The first index at or after `i` that does not hold whitespace, or the
/// length of the line.
pub open spec fn spec_skip_ws(l: Seq<char>, i: int) -> int
    decreases l.len() - i,
{
    if i >= l.len() || !is_ws(l[i]) {
        i
    } else {
        spec_skip_ws(l, i + 1)
    }
}

/// The first index at or after `i` holding `c`, or the length of the line.
pub open spec fn spec_find(l: Seq<char>, c: char, i: int) -> int
    decreases l.len() - i,
{
    if i >= l.len() {
        l.len() as int
    } else if l[i] == c {
        i
    } else {
        spec_find(l, c, i + 1)
    }
}

/// After a value token only whitespace and an optional `#` comment may
/// follow.
pub open spec fn spec_rest_ok(l: Seq<char>, i: int) -> bool {
    spec_skip_ws(l, i) == l.len() || l[spec_skip_ws(l, i)] == '#'
}

/// Scans the inside of a basic string starting at `j` (just after the
/// opening quote); a backslash escapes the next character.  Returns the index
/// just after the closing quote, or -1 when the string does not end on this
/// line.
pub open spec fn spec_scan_basic(l: Seq<char>, j: int) -> int
    decreases l.len() - j,
{
    if j >= l.len() {
        -1
    } else if l[j] == '"' {
        j + 1
    } else if l[j] == '\\' {
        if j + 1 >= l.len() {
            -1
        } else {
            spec_scan_basic(l, j + 2)
        }
    } else {
        spec_scan_basic(l, j + 1)
    }
}

/// Scans a bracketed value (`[...]` or `{...}`) starting at `j` with `depth`
/// brackets already open.  Returns the index just after the bracket that
/// closes the value, or -1 when the brackets do not balance on this line.
pub open spec fn spec_scan_bracket(l: Seq<char>, j: int, depth: int) -> int
    decreases l.len() - j,
{
    if j >= l.len() {
        -1
    } else if l[j] == '[' || l[j] == '{' {
        spec_scan_bracket(l, j + 1, depth + 1)
    } else if l[j] == ']' || l[j] == '}' {
        if depth <= 1 {
            j + 1
        } else {
            spec_scan_bracket(l, j + 1, depth - 1)
        }
    } else {
        spec_scan_bracket(l, j + 1, depth)
    }
}

/// The end of a bare word token: the first index at or after `j` holding
/// whitespace or a `#`.
pub open spec fn spec_word_end(l: Seq<char>, j: int) -> int
    decreases l.len() - j,
{
    if j >= l.len() || is_ws(l[j]) || l[j] == '#' {
        j
    } else {
        spec_word_end(l, j + 1)
    }
}

pub fn ws_char(c: char) -> (r: bool)
    ensures
        r == is_ws(c),
{
    c == ' ' || c == '\t'
}

pub fn digit_char(c: char) -> (r: bool)
    ensures
        r == is_digit(c),
{
    let u = c as u32;
    48 <= u && u <= 57
}

pub fn bare_char(c: char) -> (r: bool)
    ensures
        r == is_bare_char(c),
{
    let u = c as u32;
    (97 <= u && u <= 122) || (65 <= u && u <= 90) || (48 <= u && u <= 57) || c == '_' || c == '-'
}

pub fn skip_ws(l: &Vec<char>, i: usize) -> (r: usize)
    requires
        i <= l@.len(),
    ensures
        r == spec_skip_ws(l@, i as int),
        i <= r <= l@.len(),
    decreases l@.len() - i,
{
    if i < l.len() && ws_char(l[i]) {
        skip_ws(l, i + 1)
    } else {
        i
    }
}

pub fn find_char(l: &Vec<char>, c: char, i: usize) -> (r: usize)
    requires
        i <= l@.len(),
    ensures
        r == spec_find(l@, c, i as int),
        i <= r <= l@.len(),
    decreases l@.len() - i,
{
    if i >= l.len() {
        l.len()
    } else if l[i] == c {
        i
    } else {
        find_char(l, c, i + 1)
    }
}

pub fn rest_ok(l: &Vec<char>, i: usize) -> (r: bool)
    requires
        i <= l@.len(),
    ensures
        r == spec_rest_ok(l@, i as int),
{
    let j = skip_ws(l, i);
    j == l.len() || l[j] == '#'
}

/// Returns the end index of the basic string, or `None` when it is
/// unterminated.
pub fn scan_basic(l: &Vec<char>, j: usize) -> (r: Option<usize>)
    requires
        j <= l@.len(),
    ensures
        match r {
            Some(e) => spec_scan_basic(l@, j as int) == e as int && j < e <= l@.len(),
            None => spec_scan_basic(l@, j as int) == -1,
        },
    decreases l@.len() - j,
{
    if j >= l.len() {
        None
    } else if l[j] == '"' {
        Some(j + 1)
    } else if l[j] == '\\' {
        if j + 1 >= l.len() {
            None
        } else {
            scan_basic(l, j + 2)
        }
    } else {
        scan_basic(l, j + 1)
    }
}

pub fn scan_bracket(l: &Vec<char>, j: usize, depth: usize) -> (r: Option<usize>)
    requires
        depth <= j <= l@.len(),
    ensures
        match r {
            Some(e) => spec_scan_bracket(l@, j as int, depth as int) == e as int && j < e
                <= l@.len(),
            None => spec_scan_bracket(l@, j as int, depth as int) == -1,
        },
    decreases l@.len() - j,
{
    if j >= l.len() {
        None
    } else if l[j] == '[' || l[j] == '{' {
        scan_bracket(l, j + 1, depth + 1)
    } else if l[j] == ']' || l[j] == '}' {
        if depth <= 1 {
            Some(j + 1)
        } else {
            scan_bracket(l, j + 1, depth - 1)
        }
    } else {
        scan_bracket(l, j + 1, depth)
    }
}

pub fn word_end(l: &Vec<char>, j: usize) -> (r: usize)
    requires
        j <= l@.len(),
    ensures
        r == spec_word_end(l@, j as int),
        j <= r <= l@.len(),
    decreases l@.len() - j,
{
    if j < l.len() && !ws_char(l[j]) && l[j] != '#' {
        word_end(l, j + 1)
    } else {
        j
    }
}

} // verus!
