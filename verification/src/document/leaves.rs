use vstd::prelude::*;
use crate::document::{doc_model, line_model, path_model, scalar_model, strings_model, CanonicalLeaf,
    DiskDocument, DocLine, LeafModel, LineModel, PathSeg, ScalarModel, SegModel, TomlValue};

verus! {

// Key paths: every `key = value` line has a full path made of the table
// headers in effect above it plus its own (possibly dotted) key.  An
// `[[array]]` header contributes its position among equal headers, so the
// elements of an array of tables are matched by index order in both trees.
pub open spec fn keys_model(p: Seq<Seq<char>>) -> Seq<SegModel> {
    p.map_values(|k: Seq<char>| SegModel::Key(k))
}

/// How many `[[p]]` headers stand among the first `i` lines.
pub open spec fn occ(m: Seq<LineModel>, i: int, p: Seq<Seq<char>>) -> int
    decreases i,
{
    if i <= 0 {
        0
    } else {
        occ(m, i - 1, p) + match m[i - 1] {
            LineModel::Header { path, array, .. } => if array && path == p {
                1int
            } else {
                0int
            },
            _ => 0int,
        }
    }
}

/// The table context in effect for line `i`: the path of the closest header
/// above it, with an index appended for an array-of-tables header.
pub open spec fn header_ctx(m: Seq<LineModel>, i: int) -> Seq<SegModel>
    decreases i,
{
    if i <= 0 {
        Seq::<SegModel>::empty()
    } else {
        match m[i - 1] {
            LineModel::Header { path, array, .. } => {
                if array {
                    keys_model(path).push(SegModel::Idx(occ(m, i - 1, path)))
                } else {
                    keys_model(path)
                }
            },
            _ => header_ctx(m, i - 1),
        }
    }
}

/// The full key path of line `i`, when it is a `key = value` line.
pub open spec fn line_path(m: Seq<LineModel>, i: int) -> Option<Seq<SegModel>> {
    match m[i] {
        LineModel::KeyVal { key, .. } => Some(header_ctx(m, i) + keys_model(key)),
        _ => None,
    }
}

/// The leaves among the first `n` lines, in order.
pub open spec fn leaves_upto(m: Seq<LineModel>, n: int) -> Seq<LeafModel>
    decreases n,
{
    if n <= 0 {
        Seq::<LeafModel>::empty()
    } else {
        leaves_upto(m, n - 1) + match m[n - 1] {
            LineModel::KeyVal { value_text, value, .. } => seq![
                LeafModel {
                    path: line_path(m, n - 1)->Some_0,
                    value,
                    value_text,
                },
            ],
            _ => Seq::<LeafModel>::empty(),
        }
    }
}

/// Every leaf of the document with its full path, in document order.
pub open spec fn spec_leaves(m: Seq<LineModel>) -> Seq<LeafModel> {
    leaves_upto(m, m.len() as int)
}

/// Value-kind-aware equality: equal kind and equal underlying value.
pub open spec fn spec_scalar_eq(a: ScalarModel, b: ScalarModel) -> bool {
    match (a, b) {
        (ScalarModel::Str(x), ScalarModel::Str(y)) => x == y,
        (ScalarModel::Int(x), ScalarModel::Int(y)) => x == y,
        (ScalarModel::Bool(x), ScalarModel::Bool(y)) => x == y,
        (ScalarModel::Float(x), ScalarModel::Float(y)) => x == y,
        (ScalarModel::Datetime(x), ScalarModel::Datetime(y)) => x == y,
        (ScalarModel::Other(x), ScalarModel::Other(y)) => x == y,
        _ => false,
    }
}

/// A value kind mismatch always compares as different, so a disk value of
/// the wrong kind is overwritten, never coerced.
pub proof fn lemma_scalar_eq_kind_mismatch(a: ScalarModel, b: ScalarModel)
    ensures
        spec_scalar_eq(a, b) ==> (a is Str <==> b is Str) && (a is Int <==> b is Int) && (
        a is Bool <==> b is Bool) && (a is Float <==> b is Float) && (a is Datetime <==> b
            is Datetime) && (a is Other <==> b is Other),
        spec_scalar_eq(a, b) ==> a == b,
        spec_scalar_eq(a, a),
{
}

/// Exec twin of `spec_scalar_eq`.
pub fn scalar_eq(a: &TomlValue, b: &TomlValue) -> (r: bool)
    ensures
        r == spec_scalar_eq(scalar_model(*a), scalar_model(*b)),
{
    match (a, b) {
        (TomlValue::Str(x), TomlValue::Str(y)) => x.eq(y),
        (TomlValue::Int(x), TomlValue::Int(y)) => *x == *y,
        (TomlValue::Bool(x), TomlValue::Bool(y)) => *x == *y,
        (TomlValue::Float(x), TomlValue::Float(y)) => x.eq(y),
        (TomlValue::Datetime(x), TomlValue::Datetime(y)) => x.eq(y),
        (TomlValue::Other(x), TomlValue::Other(y)) => x.eq(y),
        _ => false,
    }
}

/// String list equality by contents.
pub fn str_list_eq(a: &Vec<String>, b: &Vec<String>) -> (r: bool)
    ensures
        r == (strings_model(a@) == strings_model(b@)),
{
    if a.len() != b.len() {
        proof {
            assert(strings_model(a@).len() == a@.len());
            assert(strings_model(b@).len() == b@.len());
        }
        return false;
    }
    let mut i: usize = 0;
    while i < a.len()
        invariant
            a@.len() == b@.len(),
            i <= a@.len(),
            forall|k: int| 0 <= k < i ==> a@[k]@ == b@[k]@,
        decreases a@.len() - i,
    {
        if !a[i].eq(&b[i]) {
            proof {
                assert(strings_model(a@)[i as int] == a@[i as int]@);
                assert(strings_model(b@)[i as int] == b@[i as int]@);
            }
            return false;
        }
        i = i + 1;
    }
    proof {
        assert(strings_model(a@) =~= strings_model(b@));
    }
    true
}

/// Path equality by contents.
pub fn path_eq(a: &Vec<PathSeg>, b: &Vec<PathSeg>) -> (r: bool)
    ensures
        r == (path_model(a@) == path_model(b@)),
{
    if a.len() != b.len() {
        proof {
            assert(path_model(a@).len() == a@.len());
            assert(path_model(b@).len() == b@.len());
        }
        return false;
    }
    let mut i: usize = 0;
    while i < a.len()
        invariant
            a@.len() == b@.len(),
            i <= a@.len(),
            forall|k: int|
                0 <= k < i ==> crate::document::seg_model(a@[k]) == crate::document::seg_model(
                    b@[k],
                ),
        decreases a@.len() - i,
    {
        let same = match (&a[i], &b[i]) {
            (PathSeg::Key(x), PathSeg::Key(y)) => x.eq(y),
            (PathSeg::Idx(x), PathSeg::Idx(y)) => *x == *y,
            _ => false,
        };
        if !same {
            proof {
                assert(path_model(a@)[i as int] == crate::document::seg_model(a@[i as int]));
                assert(path_model(b@)[i as int] == crate::document::seg_model(b@[i as int]));
            }
            return false;
        }
        i = i + 1;
    }
    proof {
        assert(path_model(a@) =~= path_model(b@));
    }
    true
}

/// Copies a path (a cloned string equals the original exactly).
pub fn clone_path(v: &Vec<PathSeg>) -> (r: Vec<PathSeg>)
    ensures
        r@ == v@,
{
    let mut r: Vec<PathSeg> = Vec::new();
    let mut i: usize = 0;
    while i < v.len()
        invariant
            i <= v@.len(),
            r@ == v@.take(i as int),
        decreases v@.len() - i,
    {
        let seg = match &v[i] {
            PathSeg::Key(s) => PathSeg::Key(s.clone()),
            PathSeg::Idx(n) => PathSeg::Idx(*n),
        };
        r.push(seg);
        i = i + 1;
        proof {
            assert(v@.take(i as int) =~= v@.take(i - 1).push(v@[i - 1]));
        }
    }
    proof {
        assert(v@.take(v@.len() as int) =~= v@);
    }
    r
}

/// Copies a string list.
pub fn clone_strings(v: &Vec<String>) -> (r: Vec<String>)
    ensures
        r@ == v@,
{
    let mut r: Vec<String> = Vec::new();
    let mut i: usize = 0;
    while i < v.len()
        invariant
            i <= v@.len(),
            r@ == v@.take(i as int),
        decreases v@.len() - i,
    {
        r.push(v[i].clone());
        i = i + 1;
        proof {
            assert(v@.take(i as int) =~= v@.take(i - 1).push(v@[i - 1]));
        }
    }
    proof {
        assert(v@.take(v@.len() as int) =~= v@);
    }
    r
}

/// Copies a scalar.
pub fn clone_value(v: &TomlValue) -> (r: TomlValue)
    ensures
        r == *v,
{
    match v {
        TomlValue::Str(s) => TomlValue::Str(s.clone()),
        TomlValue::Int(n) => TomlValue::Int(*n),
        TomlValue::Bool(b) => TomlValue::Bool(*b),
        TomlValue::Float(s) => TomlValue::Float(s.clone()),
        TomlValue::Datetime(s) => TomlValue::Datetime(s.clone()),
        TomlValue::Other(s) => TomlValue::Other(s.clone()),
    }
}

/// Turns header path names into key segments.
pub fn keys_path(p: &Vec<String>) -> (r: Vec<PathSeg>)
    ensures
        path_model(r@) == keys_model(strings_model(p@)),
{
    let mut r: Vec<PathSeg> = Vec::new();
    let mut i: usize = 0;
    while i < p.len()
        invariant
            i <= p@.len(),
            path_model(r@) == keys_model(strings_model(p@.take(i as int))),
        decreases p@.len() - i,
    {
        let ghost r0 = r@;
        r.push(PathSeg::Key(p[i].clone()));
        i = i + 1;
        proof {
            assert(r@ == r0.push(PathSeg::Key(p@[i - 1])));
            assert(path_model(r@) =~= path_model(r0).push(SegModel::Key(p@[i - 1]@)));
            assert(strings_model(p@.take(i as int)) =~= strings_model(p@.take(i - 1)).push(
                p@[i - 1]@,
            ));
            assert(keys_model(strings_model(p@.take(i - 1)).push(p@[i - 1]@)) =~= keys_model(
                strings_model(p@.take(i - 1)),
            ).push(SegModel::Key(p@[i - 1]@)));
        }
    }
    proof {
        assert(strings_model(p@.take(p@.len() as int)) =~= strings_model(p@));
        assert(keys_model(strings_model(p@.take(p@.len() as int))) =~= keys_model(
            strings_model(p@),
        ));
    }
    r
}

/// Counts the `[[p]]` headers among the first `i` lines.
pub fn count_array_headers(lines: &Vec<DocLine>, i: usize, p: &Vec<String>) -> (c: usize)
    requires
        i <= lines@.len(),
    ensures
        c as int == occ(doc_model(lines@), i as int, strings_model(p@)),
{
    let ghost m = doc_model(lines@);
    let mut c: usize = 0;
    let mut k: usize = 0;
    while k < i
        invariant
            k <= i <= lines@.len(),
            m == doc_model(lines@),
            c <= k,
            c as int == occ(m, k as int, strings_model(p@)),
        decreases i - k,
    {
        proof {
            assert(m[k as int] == line_model(lines@[k as int]));
        }
        match &lines[k] {
            DocLine::Header { path, array, .. } => {
                if *array && str_list_eq(path, p) {
                    c = c + 1;
                }
            },
            _ => {},
        }
        k = k + 1;
    }
    c
}

/// The full path of every line: `Some` for `key = value` lines, `None`
/// otherwise.
pub fn line_paths(lines: &Vec<DocLine>) -> (r: Vec<Option<Vec<PathSeg>>>)
    ensures
        r@.len() == lines@.len(),
        forall|i: int|
            0 <= i < lines@.len() ==> match #[trigger] r@[i] {
                Some(p) => line_path(doc_model(lines@), i) == Some(path_model(p@)),
                None => line_path(doc_model(lines@), i) is None,
            },
{
    let ghost m = doc_model(lines@);
    let mut r: Vec<Option<Vec<PathSeg>>> = Vec::new();
    let mut ctx: Vec<PathSeg> = Vec::new();
    let mut i: usize = 0;
    while i < lines.len()
        invariant
            i <= lines@.len(),
            m == doc_model(lines@),
            r@.len() == i,
            path_model(ctx@) == header_ctx(m, i as int),
            forall|k: int|
                0 <= k < i ==> match #[trigger] r@[k] {
                    Some(p) => line_path(m, k) == Some(path_model(p@)),
                    None => line_path(m, k) is None,
                },
        decreases lines@.len() - i,
    {
        proof {
            assert(m[i as int] == line_model(lines@[i as int]));
        }
        match &lines[i] {
            DocLine::Header { path, array, .. } => {
                let c = count_array_headers(lines, i, path);
                let mut next = keys_path(path);
                if *array {
                    next.push(PathSeg::Idx(c));
                    proof {
                        assert(path_model(next@) =~= keys_model(strings_model(path@)).push(
                            SegModel::Idx(c as int),
                        ));
                    }
                }
                ctx = next;
                r.push(None);
            },
            DocLine::KeyVal { key, .. } => {
                let mut full = clone_path(&ctx);
                let mut k: usize = 0;
                while k < key.len()
                    invariant
                        k <= key@.len(),
                        full@ == ctx@ + key@.take(k as int).map_values(
                            |s: String| PathSeg::Key(s),
                        ),
                    decreases key@.len() - k,
                {
                    full.push(PathSeg::Key(key[k].clone()));
                    k = k + 1;
                    proof {
                        assert(ctx@ + key@.take(k as int).map_values(|s: String| PathSeg::Key(s))
                            =~= (ctx@ + key@.take(k - 1).map_values(|s: String| PathSeg::Key(s))
                        ).push(PathSeg::Key(key@[k - 1])));
                    }
                }
                proof {
                    assert(key@.take(key@.len() as int) =~= key@);
                    assert(path_model(full@) =~= header_ctx(m, i as int) + keys_model(
                        strings_model(key@),
                    ));
                }
                r.push(Some(full));
            },
            DocLine::Other { .. } => {
                r.push(None);
            },
        }
        i = i + 1;
        proof {
            assert(path_model(ctx@) == header_ctx(m, i as int));
        }
    }
    r
}

impl DiskDocument {
    /// Extracts every leaf with its full key path, in document order.  This
    /// is how the canonical tree is walked: the canonical text is parsed with
    /// the same grammar and its leaves drive the patch.
    pub fn leaves(&self) -> (r: Vec<CanonicalLeaf>)
        ensures
            crate::document::leaves_model(r@) == spec_leaves(self.model()),
    {
        let ghost m = self.model();
        let paths = line_paths(&self.lines);
        let mut r: Vec<CanonicalLeaf> = Vec::new();
        let mut i: usize = 0;
        while i < self.lines.len()
            invariant
                i <= self.lines@.len(),
                m == self.model(),
                paths@.len() == self.lines@.len(),
                forall|k: int|
                    0 <= k < self.lines@.len() ==> match #[trigger] paths@[k] {
                        Some(p) => line_path(m, k) == Some(path_model(p@)),
                        None => line_path(m, k) is None,
                    },
                crate::document::leaves_model(r@) =~= leaves_upto(m, i as int),
            decreases self.lines@.len() - i,
        {
            proof {
                assert(m[i as int] == line_model(self.lines@[i as int]));
            }
            match &self.lines[i] {
                DocLine::KeyVal { value_text, value, .. } => {
                    match &paths[i] {
                        Some(p) => {
                            let leaf = CanonicalLeaf {
                                path: clone_path(p),
                                value: clone_value(value),
                                value_text: value_text.clone(),
                            };
                            r.push(leaf);
                        },
                        None => {
                            proof {
                                assert(line_path(m, i as int) is Some);
                                assert(false);
                            }
                        },
                    }
                },
                _ => {},
            }
            i = i + 1;
            proof {
                assert(crate::document::leaves_model(r@) =~= leaves_upto(m, i as int));
            }
        }
        r
    }
}

} // verus!
