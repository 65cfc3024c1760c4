use vstd::prelude::*;
use vstd::string::StringExecFns;
use crate::document::chars::chars_to_string;
use crate::theming::error::Error;

verus! {

/// A 24-bit (or, for special values, 32-bit) colour held as its hex value.
#[derive(Clone, Copy, PartialEq, Eq, Structural, Debug)]
pub struct Colour {
    pub hex: u32,
}

/// The character of one hex digit, lower case.
pub open spec fn hex_digit_char(d: int) -> char {
    if d == 0 {
        '0'
    } else if d == 1 {
        '1'
    } else if d == 2 {
        '2'
    } else if d == 3 {
        '3'
    } else if d == 4 {
        '4'
    } else if d == 5 {
        '5'
    } else if d == 6 {
        '6'
    } else if d == 7 {
        '7'
    } else if d == 8 {
        '8'
    } else if d == 9 {
        '9'
    } else if d == 10 {
        'a'
    } else if d == 11 {
        'b'
    } else if d == 12 {
        'c'
    } else if d == 13 {
        'd'
    } else if d == 14 {
        'e'
    } else {
        'f'
    }
}

/// The hex digits of `n`, most significant first, without padding.
pub open spec fn spec_hex(n: int) -> Seq<char>
    decreases n,
{
    if n < 16 {
        seq![hex_digit_char(n)]
    } else {
        spec_hex(n / 16).push(hex_digit_char(n % 16))
    }
}

/// Zero-padding to at least six digits.
pub open spec fn spec_pad6(s: Seq<char>) -> Seq<char>
    decreases 6 - s.len(),
{
    if s.len() >= 6 {
        s
    } else {
        spec_pad6(seq!['0'] + s)
    }
}

/// The rendering of a colour: `#` and at least six lower-case hex digits.
pub open spec fn spec_hex_string(n: int) -> Seq<char> {
    seq!['#'] + spec_pad6(spec_hex(n))
}

/// A hex digit of either case.
pub open spec fn is_hex_digit(c: char) -> bool {
    (48 <= c as u32 <= 57) || (97 <= c as u32 <= 102) || (65 <= c as u32 <= 70)
}

/// The value of a hex digit of either case.
pub open spec fn hex_digit_val(c: char) -> int {
    if 48 <= c as u32 <= 57 {
        c as u32 - 48
    } else if 97 <= c as u32 <= 102 {
        c as u32 - 87
    } else {
        c as u32 - 55
    }
}

/// A hex code string with every `#` removed.
pub open spec fn spec_strip_hash(s: Seq<char>) -> Seq<char>
    decreases s.len(),
{
    if s.len() == 0 {
        Seq::<char>::empty()
    } else if s[0] == '#' {
        spec_strip_hash(s.skip(1))
    } else {
        seq![s[0]] + spec_strip_hash(s.skip(1))
    }
}

/// The value of a run of hex digits.
pub open spec fn spec_hex_val(s: Seq<char>) -> int
    decreases s.len(),
{
    if s.len() == 0 {
        0
    } else {
        spec_hex_val(s.drop_last()) * 16 + hex_digit_val(s.last())
    }
}

/// The stripped text with an optional single leading plus sign removed,
/// which base-16 parsing accepts.
pub open spec fn spec_hex_body(s: Seq<char>) -> Seq<char> {
    let t = spec_strip_hash(s);
    if t.len() > 0 && t[0] == '+' {
        t.skip(1)
    } else {
        t
    }
}

/// A hex code parses when, after removing `#` and an optional leading `+`,
/// it is a non-empty run of hex digits whose value fits 32 bits.
pub open spec fn spec_hex_ok(s: Seq<char>) -> bool {
    let b = spec_hex_body(s);
    b.len() > 0 && (forall|i: int| 0 <= i < b.len() ==> is_hex_digit(b[i])) && spec_hex_val(b)
        < 0x100000000
}

pub proof fn lemma_hex_val_nonneg(s: Seq<char>)
    requires
        forall|i: int| 0 <= i < s.len() ==> is_hex_digit(s[i]),
    ensures
        spec_hex_val(s) >= 0,
    decreases s.len(),
{
    if s.len() > 0 {
        assert(forall|i: int| 0 <= i < s.drop_last().len() ==> s.drop_last()[i] == s[i]);
        lemma_hex_val_nonneg(s.drop_last());
    }
}

fn hex_digit(d: u32) -> (r: char)
    requires
        d < 16,
    ensures
        r == hex_digit_char(d as int),
{
    match d {
        0 => '0',
        1 => '1',
        2 => '2',
        3 => '3',
        4 => '4',
        5 => '5',
        6 => '6',
        7 => '7',
        8 => '8',
        9 => '9',
        10 => 'a',
        11 => 'b',
        12 => 'c',
        13 => 'd',
        14 => 'e',
        _ => 'f',
    }
}

fn hex_chars(n: u32) -> (r: Vec<char>)
    ensures
        r@ == spec_hex(n as int),
    decreases n,
{
    if n < 16 {
        let mut r: Vec<char> = Vec::new();
        r.push(hex_digit(n));
        proof {
            assert(r@ =~= seq![hex_digit_char(n as int)]);
        }
        r
    } else {
        let mut r = hex_chars(n / 16);
        r.push(hex_digit(n % 16));
        r
    }
}

impl Colour {
    pub fn from_hex(hex: u32) -> (r: Colour)
        ensures
            r.hex == hex,
    {
        Colour { hex }
    }

    /// Renders the colour as `#` followed by at least six lower-case hex
    /// digits.
    pub fn as_hex_string(&self) -> (r: String)
        ensures
            r@ == spec_hex_string(self.hex as int),
    {
        let mut digits = hex_chars(self.hex);
        while digits.len() < 6
            invariant
                spec_pad6(digits@) == spec_pad6(spec_hex(self.hex as int)),
            decreases 6 - digits@.len(),
        {
            let ghost d0 = digits@;
            digits.insert(0, '0');
            proof {
                assert(digits@ =~= seq!['0'] + d0);
            }
        }
        let mut r = String::new();
        r.push('#');
        let tail = chars_to_string(&digits);
        r.append(tail.as_str());
        proof {
            assert(r@ =~= seq!['#'] + digits@);
        }
        r
    }

    /// Parses a hex code such as `#7afff8`, ignoring `#` characters and
    /// tolerating one leading `+`.  Succeeds exactly when what remains is a
    /// non-empty run of hex digits that fits 32 bits.
    pub fn from_hex_str(value: &str) -> (r: Result<Colour, Error>)
        ensures
            (r is Ok) == spec_hex_ok(value@),
            r matches Ok(c) ==> c.hex as int == spec_hex_val(spec_hex_body(value@)),
            r matches Err(e) ==> e is FailedToParseHexCode,
    {
        let cv = crate::document::chars::str_chars(value);
        let ghost sv = value@;
        // Strip the `#` characters.
        let mut t: Vec<char> = Vec::new();
        let mut i: usize = 0;
        proof {
            assert(sv.skip(0) =~= sv);
        }
        while i < cv.len()
            invariant
                sv == cv@,
                i <= sv.len(),
                spec_strip_hash(sv) == t@ + spec_strip_hash(sv.skip(i as int)),
            decreases sv.len() - i,
        {
            let ghost suffix = sv.skip(i as int);
            proof {
                assert(suffix[0] == sv[i as int]);
                assert(suffix.skip(1) =~= sv.skip(i + 1));
            }
            let c = cv[i];
            if c != '#' {
                let ghost t0 = t@;
                t.push(c);
                proof {
                    assert(t0 + (seq![sv[i as int]] + spec_strip_hash(sv.skip(i + 1))) =~= t@
                        + spec_strip_hash(sv.skip(i + 1)));
                }
            }
            i = i + 1;
        }
        proof {
            assert(spec_strip_hash(sv.skip(sv.len() as int)) =~= Seq::<char>::empty());
            assert(t@ + Seq::<char>::empty() =~= t@);
            assert(t@ == spec_strip_hash(sv));
        }
        // Base-16 parsing tolerates one leading plus sign.
        let start: usize = if t.len() > 0 && t[0] == '+' {
            1
        } else {
            0
        };
        let body = crate::document::chars::subchars(&t, start, t.len());
        proof {
            assert(body@ =~= spec_hex_body(sv));
        }
        if body.len() == 0 {
            return Err(
                Error::FailedToParseHexCode(
                    String::from_str("the hex code is empty"),
                    String::from_str(value),
                ),
            );
        }
        // Accumulate the digits, saturating at 2^32.
        let mut acc: u64 = 0;
        let mut k: usize = 0;
        proof {
            assert(body@.take(0) =~= Seq::<char>::empty());
        }
        while k < body.len()
            invariant
                sv == value@,
                body@ == spec_hex_body(sv),
                k <= body@.len(),
                forall|j: int| 0 <= j < k ==> is_hex_digit(body@[j]),
                acc as int == if spec_hex_val(body@.take(k as int)) < 0x100000000 {
                    spec_hex_val(body@.take(k as int))
                } else {
                    0x100000000
                },
            decreases body@.len() - k,
        {
            let ghost prev = body@.take(k as int);
            let ghost cur = body@.take(k + 1);
            proof {
                assert(cur.drop_last() =~= prev);
                assert(cur.last() == body@[k as int]);
                assert(forall|j: int| 0 <= j < prev.len() ==> is_hex_digit(prev[j]));
                lemma_hex_val_nonneg(prev);
            }
            let c = body[k];
            let u = c as u32;
            let d: u64 = if 48 <= u && u <= 57 {
                (u - 48) as u64
            } else if 97 <= u && u <= 102 {
                (u - 87) as u64
            } else if 65 <= u && u <= 70 {
                (u - 55) as u64
            } else {
                proof {
                    assert(!is_hex_digit(body@[k as int]));
                    assert(!spec_hex_ok(sv));
                }
                return Err(
                    Error::FailedToParseHexCode(
                        String::from_str("the hex code holds a character that is not a hex digit"),
                        String::from_str(value),
                    ),
                );
            };
            if acc < 0x100000000u64 {
                let a2 = acc * 16 + d;
                if a2 < 0x100000000u64 {
                    acc = a2;
                } else {
                    acc = 0x100000000u64;
                }
            }
            k = k + 1;
        }
        proof {
            assert(body@.take(body@.len() as int) =~= body@);
            lemma_hex_val_nonneg(body@);
        }
        if acc >= 0x100000000u64 {
            proof {
                assert(!spec_hex_ok(sv));
            }
            return Err(
                Error::FailedToParseHexCode(
                    String::from_str("the hex code does not fit 32 bits"),
                    String::from_str(value),
                ),
            );
        }
        proof {
            assert(spec_hex_ok(sv));
        }
        Ok(Colour { hex: acc as u32 })
    }
}

} // verus!
