use vstd::prelude::*;
use crate::document::{doc_model, line_model, model_line_text, model_text, DiskDocument, DocLine,
    LineModel};
use crate::document::chars::{str_chars, subchars};
use crate::document::classify::{classify_line, lemma_classify_text, lemma_find_bounds,
    spec_classify};
use crate::document::scan::{find_char, spec_find};

verus! {

/// The line at which a document failed to parse (0-based).
#[derive(Debug)]
pub struct ParseError {
    pub line: usize,
}

/// The text split at newlines; the final line has no terminator.
pub open spec fn spec_lines(s: Seq<char>) -> Seq<Seq<char>>
    decreases s.len(),
{
    let i = spec_find(s, '\n', 0);
    if 0 <= i < s.len() {
        seq![s.take(i)] + spec_lines(s.skip(i + 1))
    } else {
        seq![s]
    }
}

/// The lines joined back with newlines.
pub open spec fn join_lines(ls: Seq<Seq<char>>) -> Seq<char>
    decreases ls.len(),
{
    if ls.len() == 0 {
        Seq::<char>::empty()
    } else if ls.len() == 1 {
        ls[0]
    } else {
        ls[0] + seq!['\n'] + join_lines(ls.skip(1))
    }
}

/// Every line of the text is inside the supported grammar.
pub open spec fn spec_parse_ok(s: Seq<char>) -> bool {
    forall|i: int| 0 <= i < spec_lines(s).len() ==> spec_classify(spec_lines(s)[i]) is Some
}

/// The parsed document of a well-formed text.
pub open spec fn spec_parse(s: Seq<char>) -> Seq<LineModel> {
    spec_lines(s).map_values(|l: Seq<char>| spec_classify(l)->Some_0)
}

/// `spec_find` from an inner start index agrees with searching the skipped
/// suffix.
pub proof fn lemma_find_skip(s: Seq<char>, c: char, start: int)
    requires
        0 <= start <= s.len(),
    ensures
        spec_find(s, c, start) == start + spec_find(s.skip(start), c, 0),
    decreases s.len() - start,
{
    lemma_find_from(s.skip(start), c, 0, start, s);
}

/// Generalized helper: searching `s` from `start + i` matches searching the
/// suffix `t = s.skip(start)` from `i`.
proof fn lemma_find_from(t: Seq<char>, c: char, i: int, start: int, s: Seq<char>)
    requires
        0 <= start <= s.len(),
        t == s.skip(start),
        0 <= i <= t.len(),
    ensures
        spec_find(s, c, start + i) == start + spec_find(t, c, i),
    decreases t.len() - i,
{
    if i < t.len() {
        assert(t[i] == s[start + i]);
        if t[i] != c {
            lemma_find_from(t, c, i + 1, start, s);
        }
    }
}

/// Splitting and joining are inverse: the split keeps every byte.
pub proof fn lemma_join_split(s: Seq<char>)
    ensures
        join_lines(spec_lines(s)) == s,
    decreases s.len(),
{
    let i = spec_find(s, '\n', 0);
    lemma_find_bounds(s, '\n', 0);
    lemma_find_found(s, '\n', 0);
    if 0 <= i < s.len() {
        lemma_join_split(s.skip(i + 1));
        let rest = spec_lines(s.skip(i + 1));
        assert(rest.len() >= 1) by {
            lemma_spec_lines_nonempty(s.skip(i + 1));
        }
        let whole = seq![s.take(i)] + rest;
        assert(whole.len() >= 2);
        assert(whole[0] == s.take(i));
        assert(whole.skip(1) =~= rest);
        assert(s[i] == '\n');
        assert(s.take(i) + seq!['\n'] + s.skip(i + 1) =~= s);
    }
}

pub proof fn lemma_spec_lines_nonempty(s: Seq<char>)
    ensures
        spec_lines(s).len() >= 1,
{
}

/// Characterization of `spec_find`: the result holds `c`, nothing before it
/// does.
pub proof fn lemma_find_found(s: Seq<char>, c: char, i: int)
    requires
        0 <= i <= s.len(),
    ensures
        spec_find(s, c, i) < s.len() ==> s[spec_find(s, c, i)] == c,
        forall|j: int| i <= j < spec_find(s, c, i) ==> s[j] != c,
    decreases s.len() - i,
{
    if i < s.len() && s[i] != c {
        lemma_find_found(s, c, i + 1);
    }
}

/// A well-formed text re-renders from its parsed document byte for byte.
pub proof fn lemma_parse_text(s: Seq<char>)
    requires
        spec_parse_ok(s),
    ensures
        model_text(spec_parse(s)) == s,
{
    lemma_model_text_join(spec_lines(s));
    assert(spec_lines(s).map_values(|l: Seq<char>| spec_classify(l)->Some_0) == spec_parse(s));
    lemma_join_split(s);
}

/// Joining classified lines gives the same text as joining the raw lines.
proof fn lemma_model_text_join(ls: Seq<Seq<char>>)
    requires
        forall|i: int| 0 <= i < ls.len() ==> spec_classify(#[trigger] ls[i]) is Some,
    ensures
        model_text(ls.map_values(|l: Seq<char>| spec_classify(l)->Some_0)) == join_lines(ls),
    decreases ls.len(),
{
    let ms = ls.map_values(|l: Seq<char>| spec_classify(l)->Some_0);
    if ls.len() == 0 {
    } else if ls.len() == 1 {
        lemma_classify_text(ls[0]);
        assert(model_text(ms) == model_line_text(ms[0]));
    } else {
        lemma_classify_text(ls[0]);
        lemma_model_text_join(ls.skip(1));
        assert(ls.skip(1).map_values(|l: Seq<char>| spec_classify(l)->Some_0) =~= ms.skip(1));
        assert(model_text(ms) == model_line_text(ms[0]) + seq!['\n'] + model_text(ms.skip(1)));
    }
}

/// Splits the character vector at newlines.
pub fn split_lines(cv: &Vec<char>) -> (r: Vec<Vec<char>>)
    ensures
        r@.map_values(|v: Vec<char>| v@) == spec_lines(cv@),
{
    let mut parts: Vec<Vec<char>> = Vec::new();
    let mut start: usize = 0;
    proof {
        assert(cv@.skip(0) =~= cv@);
        assert(parts@.map_values(|v: Vec<char>| v@) =~= Seq::<Seq<char>>::empty());
    }
    loop
        invariant
            start <= cv@.len(),
            spec_lines(cv@) =~= parts@.map_values(|v: Vec<char>| v@) + spec_lines(
                cv@.skip(start as int),
            ),
        decreases cv@.len() - start,
    {
        let j = find_char(cv, '\n', start);
        proof {
            lemma_find_skip(cv@, '\n', start as int);
        }
        if j < cv.len() {
            let part = subchars(cv, start, j);
            proof {
                let u = cv@.skip(start as int);
                let iu = spec_find(u, '\n', 0);
                assert(iu == j - start);
                assert(u.take(iu) =~= cv@.subrange(start as int, j as int));
                assert(u.skip(iu + 1) =~= cv@.skip(j + 1));
                assert(parts@.push(part).map_values(|v: Vec<char>| v@) =~= parts@.map_values(
                    |v: Vec<char>| v@,
                ).push(part@));
                assert(parts@.map_values(|v: Vec<char>| v@).push(u.take(iu)) + spec_lines(
                    cv@.skip(j + 1),
                ) =~= parts@.map_values(|v: Vec<char>| v@) + spec_lines(u));
            }
            parts.push(part);
            start = j + 1;
        } else {
            let part = subchars(cv, start, cv.len());
            proof {
                let u = cv@.skip(start as int);
                assert(u =~= cv@.subrange(start as int, cv@.len() as int));
                assert(spec_lines(u) =~= seq![u]);
                assert(parts@.push(part).map_values(|v: Vec<char>| v@) =~= parts@.map_values(
                    |v: Vec<char>| v@,
                ).push(part@));
                assert(parts@.map_values(|v: Vec<char>| v@).push(u) =~= parts@.map_values(
                    |v: Vec<char>| v@,
                ) + seq![u]);
            }
            parts.push(part);
            return parts;
        }
    }
}

impl DiskDocument {
    /// Parses the on-disk text into a document.  Succeeds exactly when every
    /// line is inside the supported grammar; the parsed document re-renders
    /// byte for byte, and the error names the first offending line.
    pub fn parse(s: &str) -> (r: Result<DiskDocument, ParseError>)
        ensures
            (r is Ok) == spec_parse_ok(s@),
            r matches Ok(d) ==> d.model() == spec_parse(s@),
            r matches Ok(d) ==> model_text(d.model()) == s@,
            r matches Err(e) ==> e.line < spec_lines(s@).len() && spec_classify(
                spec_lines(s@)[e.line as int],
            ) is None,
    {
        let cv = str_chars(s);
        let parts = split_lines(&cv);
        let ghost raw = parts@.map_values(|v: Vec<char>| v@);
        let mut lines: Vec<DocLine> = Vec::new();
        let mut i: usize = 0;
        while i < parts.len()
            invariant
                raw == spec_lines(s@),
                raw == parts@.map_values(|v: Vec<char>| v@),
                i <= parts@.len(),
                lines@.len() == i,
                forall|k: int|
                    0 <= k < i ==> spec_classify(raw[k]) == Some(line_model(#[trigger] lines@[k])),
            decreases parts@.len() - i,
        {
            proof {
                assert(raw[i as int] == parts@[i as int]@);
            }
            match classify_line(&parts[i]) {
                Some(dl) => {
                    lines.push(dl);
                },
                None => {
                    proof {
                        assert(spec_classify(spec_lines(s@)[i as int]) is None);
                        assert(!spec_parse_ok(s@));
                    }
                    return Err(ParseError { line: i });
                },
            }
            i = i + 1;
        }
        let d = DiskDocument { lines };
        proof {
            assert forall|k: int| 0 <= k < raw.len() implies spec_classify(
                #[trigger] raw[k],
            ) is Some by {
                assert(spec_classify(raw[k]) == Some(line_model(lines@[k])));
            }
            assert(spec_parse_ok(s@));
            assert(d.model() =~= spec_parse(s@));
            lemma_parse_text(s@);
        }
        Ok(d)
    }
}

} // verus!
