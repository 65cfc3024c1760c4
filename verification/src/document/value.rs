use vstd::prelude::*;
use crate::document::{ScalarModel, TomlValue};
use crate::document::chars::chars_to_string;
use crate::document::scan::{digit_char, is_digit};

verus! {

// Classification of a bare word value token: booleans, integers, floats and
// date-times, with anything else kept as raw text.  The spec functions state
// the grammar; the exec code follows it exactly.
pub open spec fn has_sign(w: Seq<char>) -> bool {
    w.len() > 0 && (w[0] == '+' || w[0] == '-')
}

/// The word with a leading sign removed.
pub open spec fn num_body(w: Seq<char>) -> Seq<char> {
    if has_sign(w) {
        w.skip(1)
    } else {
        w
    }
}

/// A run of digits with `_` separators and at least one digit.
pub open spec fn spec_int_body_ok(b: Seq<char>) -> bool {
    b.len() > 0 && (forall|i: int| 0 <= i < b.len() ==> is_digit(b[i]) || b[i] == '_') && (
    exists|i: int| 0 <= i < b.len() && is_digit(b[i]))
}

/// An integer literal: an optional sign, then digits with `_` separators and
/// at least one digit.
pub open spec fn spec_is_int(w: Seq<char>) -> bool {
    spec_int_body_ok(num_body(w))
}

/// The value of a digit run, ignoring `_` separators.
pub open spec fn spec_digits_val(b: Seq<char>) -> int
    decreases b.len(),
{
    if b.len() == 0 {
        0
    } else if is_digit(b.last()) {
        spec_digits_val(b.drop_last()) * 10 + (b.last() as u32 - 48)
    } else {
        spec_digits_val(b.drop_last())
    }
}

pub proof fn lemma_digits_val_nonneg(b: Seq<char>)
    ensures
        spec_digits_val(b) >= 0,
    decreases b.len(),
{
    if b.len() > 0 {
        lemma_digits_val_nonneg(b.drop_last());
    }
}

/// The signed value of an integer literal.
pub open spec fn spec_int_val(w: Seq<char>) -> int {
    if w.len() > 0 && w[0] == '-' {
        -spec_digits_val(num_body(w))
    } else {
        spec_digits_val(num_body(w))
    }
}

pub open spec fn is_float_char(c: char) -> bool {
    is_digit(c) || c == '.' || c == '_' || c == 'e' || c == 'E' || c == '+' || c == '-'
}

/// A digit run holding a decimal point or an exponent.
pub open spec fn spec_float_body_ok(b: Seq<char>) -> bool {
    b.len() > 0 && (forall|i: int| 0 <= i < b.len() ==> is_float_char(b[i])) && (exists|i: int|
        0 <= i < b.len() && is_digit(b[i])) && (exists|i: int|
        0 <= i < b.len() && (b[i] == '.' || b[i] == 'e' || b[i] == 'E'))
}

/// A float literal: `inf`, `nan`, or a signed digit run holding a decimal
/// point or an exponent.
pub open spec fn spec_is_float(w: Seq<char>) -> bool {
    let b = num_body(w);
    b == seq!['i', 'n', 'f'] || b == seq!['n', 'a', 'n'] || spec_float_body_ok(b)
}

pub open spec fn is_datetime_char(c: char) -> bool {
    is_digit(c) || c == '-' || c == ':' || c == '+' || c == '.' || c == 'T' || c == 't' || c == 'Z'
        || c == 'z'
}

/// A date-time literal: date and time characters only, starting with a digit
/// and holding a date or time separator.
pub open spec fn spec_is_datetime(w: Seq<char>) -> bool {
    w.len() > 0 && is_digit(w[0]) && (forall|i: int| 0 <= i < w.len() ==> is_datetime_char(w[i]))
        && (exists|i: int| 0 <= i < w.len() && (w[i] == '-' || w[i] == ':'))
}

/// The scalar a bare word token stands for.
pub open spec fn spec_word_scalar(w: Seq<char>) -> ScalarModel {
    if w == seq!['t', 'r', 'u', 'e'] {
        ScalarModel::Bool(true)
    } else if w == seq!['f', 'a', 'l', 's', 'e'] {
        ScalarModel::Bool(false)
    } else if spec_is_int(w) {
        if -9223372036854775808 <= spec_int_val(w) <= 9223372036854775807 {
            ScalarModel::Int(spec_int_val(w))
        } else {
            ScalarModel::Other(w)
        }
    } else if spec_is_float(w) {
        ScalarModel::Float(w)
    } else if spec_is_datetime(w) {
        ScalarModel::Datetime(w)
    } else {
        ScalarModel::Other(w)
    }
}

/// Digit accumulation saturates here: one past `u64::MAX`, far above any
/// value that fits an `i64`.
pub open spec fn digits_cap() -> int {
    0x10000000000000000
}

pub(crate) fn word_is(w: &Vec<char>, a: char, b: char, c: char) -> (r: bool)
    ensures
        r == (w@ == seq![a, b, c]),
{
    let r = w.len() == 3 && w[0] == a && w[1] == b && w[2] == c;
    proof {
        if r {
            assert(w@ =~= seq![a, b, c]);
        } else {
            assert(w@ != seq![a, b, c]) by {
                if w@ == seq![a, b, c] {
                    assert(w@.len() == 3);
                    assert(w@[0] == a && w@[1] == b && w@[2] == c);
                }
            }
        }
    }
    r
}

pub(crate) fn word_is4(w: &Vec<char>, a: char, b: char, c: char, d: char) -> (r: bool)
    ensures
        r == (w@ == seq![a, b, c, d]),
{
    let r = w.len() == 4 && w[0] == a && w[1] == b && w[2] == c && w[3] == d;
    proof {
        if r {
            assert(w@ =~= seq![a, b, c, d]);
        } else {
            assert(w@ != seq![a, b, c, d]) by {
                if w@ == seq![a, b, c, d] {
                    assert(w@.len() == 4);
                    assert(w@[0] == a && w@[1] == b && w@[2] == c && w@[3] == d);
                }
            }
        }
    }
    r
}

pub(crate) fn word_is5(w: &Vec<char>, a: char, b: char, c: char, d: char, e: char) -> (r: bool)
    ensures
        r == (w@ == seq![a, b, c, d, e]),
{
    let r = w.len() == 5 && w[0] == a && w[1] == b && w[2] == c && w[3] == d && w[4] == e;
    proof {
        if r {
            assert(w@ =~= seq![a, b, c, d, e]);
        } else {
            assert(w@ != seq![a, b, c, d, e]) by {
                if w@ == seq![a, b, c, d, e] {
                    assert(w@.len() == 5);
                    assert(w@[0] == a && w@[1] == b && w@[2] == c && w@[3] == d && w@[4] == e);
                }
            }
        }
    }
    r
}

/// Checks `spec_int_body_ok` for the body slice `w@.skip(start)`.
fn check_int_body(w: &Vec<char>, start: usize) -> (r: bool)
    requires
        start <= w@.len(),
    ensures
        r == spec_int_body_ok(w@.skip(start as int)),
{
    let ghost b = w@.skip(start as int);
    proof {
        assert(forall|i: int| 0 <= i < b.len() ==> b[i] == w@[i + start]);
    }
    if start >= w.len() {
        return false;
    }
    let mut i: usize = start;
    let mut seen_digit = false;
    while i < w.len()
        invariant
            start <= i <= w@.len(),
            b == w@.skip(start as int),
            forall|k: int| start <= k < i ==> is_digit(w@[k]) || w@[k] == '_',
            seen_digit == (exists|k: int| start <= k < i && is_digit(w@[k])),
        decreases w@.len() - i,
    {
        let c = w[i];
        if digit_char(c) {
            seen_digit = true;
        } else if c != '_' {
            proof {
                assert(b[i - start] == w@[i as int]);
                assert(!spec_int_body_ok(b));
            }
            return false;
        }
        i = i + 1;
    }
    proof {
        assert(forall|i: int| 0 <= i < b.len() ==> b[i] == w@[i + start]);
        if seen_digit {
            let k = choose|k: int| start <= k < w@.len() && is_digit(w@[k]);
            assert(is_digit(b[k - start]));
            assert(spec_int_body_ok(b));
        } else {
            assert(!spec_int_body_ok(b)) by {
                if exists|i: int| 0 <= i < b.len() && is_digit(b[i]) {
                    let j = choose|j: int| 0 <= j < b.len() && is_digit(b[j]);
                    assert(is_digit(w@[j + start]));
                }
            }
        }
    }
    seen_digit
}

/// Computes the digit value of `w@.skip(start)` saturated at `digits_cap()`.
pub(crate) fn digits_value(w: &Vec<char>, start: usize) -> (acc: u128)
    requires
        start <= w@.len(),
    ensures
        acc as int == if spec_digits_val(w@.skip(start as int)) < digits_cap() {
            spec_digits_val(w@.skip(start as int))
        } else {
            digits_cap()
        },
{
    let mut acc: u128 = 0;
    let mut i: usize = start;
    proof {
        assert(w@.skip(start as int).take(0) =~= Seq::<char>::empty());
    }
    while i < w.len()
        invariant
            start <= i <= w@.len(),
            acc as int == if spec_digits_val(w@.skip(start as int).take(i - start)) < digits_cap() {
                spec_digits_val(w@.skip(start as int).take(i - start))
            } else {
                digits_cap()
            },
        decreases w@.len() - i,
    {
        let ghost b = w@.skip(start as int);
        let ghost prev = b.take(i - start);
        let ghost cur = b.take(i + 1 - start);
        proof {
            assert(cur.drop_last() =~= prev);
            assert(cur.last() == w@[i as int]);
            lemma_digits_val_nonneg(prev);
        }
        let c = w[i];
        if digit_char(c) {
            let d = (c as u32 - 48) as u128;
            if acc < 0x10000000000000000u128 {
                let a2 = acc * 10 + d;
                if a2 < 0x10000000000000000u128 {
                    acc = a2;
                } else {
                    acc = 0x10000000000000000u128;
                }
            }
            proof {
                assert(spec_digits_val(cur) == spec_digits_val(prev) * 10 + (cur.last() as u32
                    - 48));
            }
        } else {
            proof {
                assert(spec_digits_val(cur) == spec_digits_val(prev));
            }
        }
        i = i + 1;
    }
    proof {
        assert(w@.skip(start as int).take(w@.len() - start) =~= w@.skip(start as int));
    }
    acc
}

/// Checks `spec_float_body_ok` for the body slice `w@.skip(start)`.
fn check_float_body(w: &Vec<char>, start: usize) -> (r: bool)
    requires
        start <= w@.len(),
    ensures
        r == spec_float_body_ok(w@.skip(start as int)),
{
    let ghost b = w@.skip(start as int);
    proof {
        assert(forall|i: int| 0 <= i < b.len() ==> b[i] == w@[i + start]);
    }
    if start >= w.len() {
        return false;
    }
    let mut i: usize = start;
    let mut seen_digit = false;
    let mut seen_mark = false;
    while i < w.len()
        invariant
            start <= i <= w@.len(),
            b == w@.skip(start as int),
            forall|k: int| start <= k < i ==> is_float_char(w@[k]),
            seen_digit == (exists|k: int| start <= k < i && is_digit(w@[k])),
            seen_mark == (exists|k: int| start <= k < i && (w@[k] == '.' || w@[k] == 'e' || w@[k]
                == 'E')),
        decreases w@.len() - i,
    {
        let c = w[i];
        if digit_char(c) {
            seen_digit = true;
        } else if c == '.' || c == 'e' || c == 'E' {
            seen_mark = true;
        } else if !(c == '_' || c == '+' || c == '-') {
            proof {
                assert(b[i - start] == w@[i as int]);
                assert(!spec_float_body_ok(b));
            }
            return false;
        }
        i = i + 1;
    }
    proof {
        assert(forall|i: int| 0 <= i < b.len() ==> b[i] == w@[i + start]);
        if seen_digit && seen_mark {
            let k1 = choose|k: int| start <= k < w@.len() && is_digit(w@[k]);
            assert(is_digit(b[k1 - start]));
            let k2 = choose|k: int|
                start <= k < w@.len() && (w@[k] == '.' || w@[k] == 'e' || w@[k] == 'E');
            assert(b[k2 - start] == '.' || b[k2 - start] == 'e' || b[k2 - start] == 'E');
            assert(spec_float_body_ok(b));
        } else {
            assert(!spec_float_body_ok(b)) by {
                if exists|i: int| 0 <= i < b.len() && is_digit(b[i]) {
                    let j = choose|j: int| 0 <= j < b.len() && is_digit(b[j]);
                    assert(is_digit(w@[j + start]));
                }
                if exists|i: int| 0 <= i < b.len() && (b[i] == '.' || b[i] == 'e' || b[i] == 'E') {
                    let j = choose|j: int|
                        0 <= j < b.len() && (b[j] == '.' || b[j] == 'e' || b[j] == 'E');
                    assert(w@[j + start] == '.' || w@[j + start] == 'e' || w@[j + start] == 'E');
                }
            }
        }
    }
    seen_digit && seen_mark
}

fn check_datetime(w: &Vec<char>) -> (r: bool)
    ensures
        r == spec_is_datetime(w@),
{
    if w.len() == 0 {
        return false;
    }
    if !digit_char(w[0]) {
        return false;
    }
    let mut i: usize = 0;
    let mut seen_sep = false;
    while i < w.len()
        invariant
            i <= w@.len(),
            forall|k: int| 0 <= k < i ==> is_datetime_char(w@[k]),
            seen_sep == (exists|k: int| 0 <= k < i && (w@[k] == '-' || w@[k] == ':')),
        decreases w@.len() - i,
    {
        let c = w[i];
        if c == '-' || c == ':' {
            seen_sep = true;
        } else if !(digit_char(c) || c == '+' || c == '.' || c == 'T' || c == 't' || c == 'Z' || c
            == 'z') {
            return false;
        }
        i = i + 1;
    }
    seen_sep
}

/// Classifies a bare word token.
pub fn word_scalar(w: &Vec<char>) -> (r: TomlValue)
    ensures
        crate::document::scalar_model(r) == spec_word_scalar(w@),
{
    if word_is4(w, 't', 'r', 'u', 'e') {
        return TomlValue::Bool(true);
    }
    if word_is5(w, 'f', 'a', 'l', 's', 'e') {
        return TomlValue::Bool(false);
    }
    let signed = w.len() > 0 && (w[0] == '+' || w[0] == '-');
    let neg = w.len() > 0 && w[0] == '-';
    let body_start: usize = if signed {
        1
    } else {
        0
    };
    proof {
        if signed {
            assert(num_body(w@) =~= w@.skip(1));
        } else {
            assert(num_body(w@) =~= w@.skip(0));
        }
    }
    if check_int_body(w, body_start) {
        proof {
            assert(spec_is_int(w@));
        }
        let mag = digits_value(w, body_start);
        proof {
            lemma_digits_val_nonneg(num_body(w@));
        }
        if neg {
            if mag <= 9223372036854775808u128 {
                let v: i64 = if mag == 9223372036854775808u128 {
                    i64::MIN
                } else {
                    -(mag as i64)
                };
                return TomlValue::Int(v);
            } else {
                return TomlValue::Other(chars_to_string(w));
            }
        } else {
            if mag <= 9223372036854775807u128 {
                return TomlValue::Int(mag as i64);
            } else {
                return TomlValue::Other(chars_to_string(w));
            }
        }
    }
    let float_special = word_is(w, 'i', 'n', 'f') || word_is(w, 'n', 'a', 'n') || (signed && (
    word_is4(w, w[0], 'i', 'n', 'f') || word_is4(w, w[0], 'n', 'a', 'n')));
    proof {
        if signed {
            if w@ == seq![w@[0], 'i', 'n', 'f'] {
                assert(num_body(w@) =~= seq!['i', 'n', 'f']);
            }
            if w@ == seq![w@[0], 'n', 'a', 'n'] {
                assert(num_body(w@) =~= seq!['n', 'a', 'n']);
            }
            if num_body(w@) == seq!['i', 'n', 'f'] {
                assert(w@ =~= seq![w@[0], 'i', 'n', 'f']);
            }
            if num_body(w@) == seq!['n', 'a', 'n'] {
                assert(w@ =~= seq![w@[0], 'n', 'a', 'n']);
            }
        }
    }
    if float_special || check_float_body(w, body_start) {
        proof {
            assert(spec_is_float(w@));
        }
        return TomlValue::Float(chars_to_string(w));
    }
    proof {
        assert(!spec_is_float(w@));
    }
    if check_datetime(w) {
        return TomlValue::Datetime(chars_to_string(w));
    }
    TomlValue::Other(chars_to_string(w))
}

/// The replacement for one escape character in a basic string.
pub open spec fn spec_escape(c: char) -> Option<char> {
    if c == 'n' {
        Some('\n')
    } else if c == 't' {
        Some('\t')
    } else if c == 'r' {
        Some('\r')
    } else if c == '"' {
        Some('"')
    } else if c == '\\' {
        Some('\\')
    } else if c == 'b' {
        Some('\u{0008}')
    } else if c == 'f' {
        Some('\u{000C}')
    } else {
        None
    }
}

/// Decodes the inside of a basic string; `None` when an escape is not part of
/// the supported subset.
pub open spec fn spec_decode_basic(s: Seq<char>) -> Option<Seq<char>>
    decreases s.len(),
{
    if s.len() == 0 {
        Some(Seq::<char>::empty())
    } else if s[0] == '\\' {
        if s.len() < 2 {
            None
        } else {
            match spec_escape(s[1]) {
                None => None,
                Some(c) => match spec_decode_basic(s.skip(2)) {
                    None => None,
                    Some(r) => Some(seq![c] + r),
                },
            }
        }
    } else {
        match spec_decode_basic(s.skip(1)) {
            None => None,
            Some(r) => Some(seq![s[0]] + r),
        }
    }
}

fn escape_char(c: char) -> (r: Option<char>)
    ensures
        r == spec_escape(c),
{
    if c == 'n' {
        Some('\n')
    } else if c == 't' {
        Some('\t')
    } else if c == 'r' {
        Some('\r')
    } else if c == '"' {
        Some('"')
    } else if c == '\\' {
        Some('\\')
    } else if c == 'b' {
        Some('\u{0008}')
    } else if c == 'f' {
        Some('\u{000C}')
    } else {
        None
    }
}

/// Decodes `s@.skip(i)` as the inside of a basic string.
pub fn decode_basic_from(s: &Vec<char>, i: usize) -> (r: Option<Vec<char>>)
    requires
        i <= s@.len(),
    ensures
        match r {
            Some(v) => spec_decode_basic(s@.skip(i as int)) == Some(v@),
            None => spec_decode_basic(s@.skip(i as int)) is None,
        },
    decreases s@.len() - i,
{
    let ghost t = s@.skip(i as int);
    if i >= s.len() {
        proof {
            assert(t =~= Seq::<char>::empty());
        }
        return Some(Vec::new());
    }
    proof {
        assert(t[0] == s@[i as int]);
        assert(t.len() >= 1);
    }
    if s[i] == '\\' {
        if i + 1 >= s.len() {
            proof {
                assert(t.len() < 2);
            }
            return None;
        }
        proof {
            assert(t[1] == s@[i + 1]);
            assert(t.skip(2) =~= s@.skip(i + 2));
        }
        match escape_char(s[i + 1]) {
            None => None,
            Some(c) => match decode_basic_from(s, i + 2) {
                None => None,
                Some(mut r) => {
                    r.insert(0, c);
                    proof {
                        assert(r@ =~= seq![c] + r@.skip(1));
                    }
                    Some(r)
                },
            },
        }
    } else {
        proof {
            assert(t.skip(1) =~= s@.skip(i + 1));
        }
        let c = s[i];
        match decode_basic_from(s, i + 1) {
            None => None,
            Some(mut r) => {
                r.insert(0, c);
                proof {
                    assert(r@ =~= seq![c] + r@.skip(1));
                }
                Some(r)
            },
        }
    }
}

} // verus!
