use vstd::prelude::*;
use vstd::string::StringExecFns;

pub mod chars;
pub mod classify;
pub mod laws;
pub mod leaves;
pub mod parse;
pub mod patch;
pub mod scan;
pub mod value;

verus! {

// A `DiskDocument` is the parsed, formatted representation of the on-disk
// configuration text: an ordered list of lines, where every line keeps the
// exact text it was parsed from.  Rendering an unmodified document reproduces
// the original bytes exactly; the patcher replaces only the value text of the
// leaves that changed, so comments, blank lines, indentation and key spelling
// survive every save.
//
// The supported grammar is deliberately a single-line subset of TOML:
// comment and blank lines, `[table]` and `[[array-of-tables]]` headers with
// bare dotted keys, and `key = value` lines whose value fits on the line
// (basic and literal strings, integers, booleans, floats, date-times, and
// bracketed values kept as raw text).  This is a real narrowing of TOML, and
// it is load-bearing: a hand-edited file using a multi-line string or a
// multi-line array, or quoted keys, fails the whole parse — it is never
// mangled, but every save cycle over such a file reports a document parse
// failure until the file is reformatted into the subset.  The serializer's
// own output is always inside the subset.
/// A scalar leaf value, compared kind-aware: two values are equal only when
/// they have the same kind and the same underlying value, never across kinds
/// and never by their serialized text (except for the kinds that are kept as
/// raw text).
#[derive(Debug)]
pub enum TomlValue {
    /// A quoted string, decoded (so `"a"` and `'a'` compare equal).
    Str(String),
    /// An integer value.
    Int(i64),
    /// A boolean value.
    Bool(bool),
    /// A float literal, kept as its literal text.
    Float(String),
    /// A date-time literal, kept as its literal text.
    Datetime(String),
    /// Any other value text (arrays, inline tables, unrecognized literals),
    /// kept verbatim and compared textually.
    Other(String),
}

/// The mathematical model of a [`TomlValue`].
pub enum ScalarModel {
    Str(Seq<char>),
    Int(int),
    Bool(bool),
    Float(Seq<char>),
    Datetime(Seq<char>),
    Other(Seq<char>),
}

/// One segment of a key path: a named key, or the position of an element
/// inside an array of tables.
#[derive(Debug)]
pub enum PathSeg {
    Key(String),
    Idx(usize),
}

/// The mathematical model of a [`PathSeg`].
pub enum SegModel {
    Key(Seq<char>),
    Idx(int),
}

/// One line of the on-disk document.
#[derive(Debug)]
pub enum DocLine {
    /// A blank line, a comment line, or any other line kept verbatim.
    Other { text: String },
    /// A `[path]` or `[[path]]` header line.
    Header { text: String, path: Vec<String>, array: bool },
    /// A `key = value` line.  `prefix` holds everything through the equals
    /// sign and the spaces before the value; `suffix` holds the spaces and
    /// trailing comment after it; the full line is
    /// `prefix + value_text + suffix`.
    KeyVal { prefix: String, value_text: String, suffix: String, key: Vec<String>, value: TomlValue },
}

/// The mathematical model of a [`DocLine`].
pub enum LineModel {
    Other { text: Seq<char> },
    Header { text: Seq<char>, path: Seq<Seq<char>>, array: bool },
    KeyVal {
        prefix: Seq<char>,
        value_text: Seq<char>,
        suffix: Seq<char>,
        key: Seq<Seq<char>>,
        value: ScalarModel,
    },
}

/// The formatted on-disk document: an ordered list of lines.
#[derive(Debug)]
pub struct DiskDocument {
    pub lines: Vec<DocLine>,
}

/// One leaf of the canonical tree: a full key path and the scalar that must
/// end up on disk, together with its serialized text.
#[derive(Debug)]
pub struct CanonicalLeaf {
    pub path: Vec<PathSeg>,
    pub value: TomlValue,
    pub value_text: String,
}

/// The mathematical model of a [`CanonicalLeaf`].
pub struct LeafModel {
    pub path: Seq<SegModel>,
    pub value: ScalarModel,
    pub value_text: Seq<char>,
}

pub open spec fn scalar_model(v: TomlValue) -> ScalarModel {
    match v {
        TomlValue::Str(s) => ScalarModel::Str(s@),
        TomlValue::Int(n) => ScalarModel::Int(n as int),
        TomlValue::Bool(b) => ScalarModel::Bool(b),
        TomlValue::Float(s) => ScalarModel::Float(s@),
        TomlValue::Datetime(s) => ScalarModel::Datetime(s@),
        TomlValue::Other(s) => ScalarModel::Other(s@),
    }
}

pub open spec fn seg_model(s: PathSeg) -> SegModel {
    match s {
        PathSeg::Key(k) => SegModel::Key(k@),
        PathSeg::Idx(i) => SegModel::Idx(i as int),
    }
}

pub open spec fn strings_model(v: Seq<String>) -> Seq<Seq<char>> {
    v.map_values(|s: String| s@)
}

pub open spec fn path_model(v: Seq<PathSeg>) -> Seq<SegModel> {
    v.map_values(|s: PathSeg| seg_model(s))
}

pub open spec fn line_model(l: DocLine) -> LineModel {
    match l {
        DocLine::Other { text } => LineModel::Other { text: text@ },
        DocLine::Header { text, path, array } => LineModel::Header {
            text: text@,
            path: strings_model(path@),
            array,
        },
        DocLine::KeyVal { prefix, value_text, suffix, key, value } => LineModel::KeyVal {
            prefix: prefix@,
            value_text: value_text@,
            suffix: suffix@,
            key: strings_model(key@),
            value: scalar_model(value),
        },
    }
}

pub open spec fn doc_model(lines: Seq<DocLine>) -> Seq<LineModel> {
    lines.map_values(|l: DocLine| line_model(l))
}

pub open spec fn leaf_model(l: CanonicalLeaf) -> LeafModel {
    LeafModel { path: path_model(l.path@), value: scalar_model(l.value), value_text: l.value_text@ }
}

pub open spec fn leaves_model(v: Seq<CanonicalLeaf>) -> Seq<LeafModel> {
    v.map_values(|l: CanonicalLeaf| leaf_model(l))
}

/// The exact text of one line (without its terminating newline).
pub open spec fn model_line_text(l: LineModel) -> Seq<char> {
    match l {
        LineModel::Other { text } => text,
        LineModel::Header { text, .. } => text,
        LineModel::KeyVal { prefix, value_text, suffix, .. } => prefix + value_text + suffix,
    }
}

/// The exact text of a whole document: the lines joined with newlines.
pub open spec fn model_text(lines: Seq<LineModel>) -> Seq<char>
    decreases lines.len(),
{
    if lines.len() == 0 {
        Seq::<char>::empty()
    } else if lines.len() == 1 {
        model_line_text(lines[0])
    } else {
        model_line_text(lines[0]) + seq!['\n'] + model_text(lines.skip(1))
    }
}

pub proof fn lemma_model_text_push(lines: Seq<LineModel>, l: LineModel)
    requires
        lines.len() > 0,
    ensures
        model_text(lines.push(l)) == model_text(lines) + seq!['\n'] + model_line_text(l),
    decreases lines.len(),
{
    let p = lines.push(l);
    assert(p.len() == lines.len() + 1);
    assert(p[0] == lines[0]);
    assert(model_text(p) == model_line_text(p[0]) + seq!['\n'] + model_text(p.skip(1)));
    if lines.len() == 1 {
        assert(p.skip(1) =~= seq![l]);
        assert(model_text(seq![l]) == model_line_text(l));
    } else {
        lemma_model_text_push(lines.skip(1), l);
        assert(p.skip(1) =~= lines.skip(1).push(l));
        // Concatenation is re-associated by extensionality.
        assert(model_line_text(lines[0]) + seq!['\n'] + (model_text(lines.skip(1)) + seq!['\n']
            + model_line_text(l)) =~= (model_line_text(lines[0]) + seq!['\n'] + model_text(
            lines.skip(1),
        )) + seq!['\n'] + model_line_text(l));
    }
}

impl DocLine {
    /// The exact text of this line.
    pub fn text(&self) -> (r: String)
        ensures
            r@ == model_line_text(line_model(*self)),
    {
        match self {
            DocLine::Other { text } => text.clone(),
            DocLine::Header { text, .. } => text.clone(),
            DocLine::KeyVal { prefix, value_text, suffix, .. } => {
                let mut r = prefix.clone();
                r.append(value_text.as_str());
                r.append(suffix.as_str());
                r
            },
        }
    }
}

impl DiskDocument {
    pub open spec fn model(&self) -> Seq<LineModel> {
        doc_model(self.lines@)
    }

    /// Renders the document back to text.  An unmodified document reproduces
    /// the exact text it was parsed from.
    pub fn to_text(&self) -> (r: String)
        ensures
            r@ == model_text(self.model()),
    {
        let mut r = String::new();
        let mut i: usize = 0;
        while i < self.lines.len()
            invariant
                i <= self.lines@.len(),
                r@ == model_text(self.model().take(i as int)),
            decreases self.lines@.len() - i,
        {
            if i > 0 {
                r.push('\n');
            }
            let line = self.lines[i].text();
            r.append(line.as_str());
            i = i + 1;
            proof {
                let m = self.model();
                assert(m.take(i as int) =~= m.take(i - 1).push(m[i - 1]));
                if i == 1 {
                    assert(model_text(m.take(1int)) == model_line_text(m[0]));
                } else {
                    lemma_model_text_push(m.take(i - 1), m[i - 1]);
                }
            }
        }
        proof {
            assert(self.model().take(self.lines@.len() as int) =~= self.model());
        }
        r
    }
}

} // verus!
