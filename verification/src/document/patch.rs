use vstd::prelude::*;
use vstd::pervasive::VecAdditionalExecFns;
use crate::document::{doc_model, leaf_model, leaves_model, line_model, path_model, scalar_model,
    strings_model, CanonicalLeaf, DiskDocument, DocLine, LeafModel, LineModel, PathSeg,
    ScalarModel, SegModel, TomlValue};
use crate::document::chars::chars_to_string;
use crate::document::leaves::{clone_path, clone_strings, clone_value, line_path, line_paths,
    path_eq, scalar_eq, spec_leaves, spec_scalar_eq, str_list_eq};

verus! {

// The patcher: for every canonical leaf, look its key path up in the disk
// document.  A present leaf with an equal value is left alone; a present
// leaf with a different value (or a different kind) has only its value text
// replaced; a missing leaf with a plain (array-free) path is inserted at the
// end of its table section, creating the `[table]` header at the end of the
// document when even that is missing.  Nothing else in the document is
// touched: the patcher never deletes, never reorders, and never rewrites a
// line it was not driven to by a canonical leaf.
//
// A missing leaf inside an array of tables is left out rather than guessed
// at: array-of-tables matching is positional, a documented approximation.
/// The first match of a full key path at or after line `i`.
pub open spec fn spec_find_leaf_from(m: Seq<LineModel>, p: Seq<SegModel>, i: int) -> Option<int>
    decreases m.len() - i,
{
    if i < 0 || i >= m.len() {
        None
    } else if line_path(m, i) == Some(p) {
        Some(i)
    } else {
        spec_find_leaf_from(m, p, i + 1)
    }
}

pub open spec fn spec_find_leaf(m: Seq<LineModel>, p: Seq<SegModel>) -> Option<int> {
    spec_find_leaf_from(m, p, 0)
}

/// The line with only its value replaced; formatting and key stay.
pub open spec fn spec_replace_line(l: LineModel, leaf: LeafModel) -> LineModel {
    match l {
        LineModel::KeyVal { prefix, suffix, key, .. } => LineModel::KeyVal {
            prefix,
            value_text: leaf.value_text,
            suffix,
            key,
            value: leaf.value,
        },
        _ => l,
    }
}

/// The line is a leaf holding a value equal to `v`.
pub open spec fn spec_line_value_eq(l: LineModel, v: ScalarModel) -> bool {
    match l {
        LineModel::KeyVal { value, .. } => spec_scalar_eq(value, v),
        _ => false,
    }
}

pub open spec fn spec_all_keys(p: Seq<SegModel>) -> bool {
    forall|i: int| 0 <= i < p.len() ==> p[i] is Key
}

pub open spec fn key_names(p: Seq<SegModel>) -> Seq<Seq<char>> {
    p.map_values(|s: SegModel| s->Key_0)
}

/// The first header line at or after `i`, or the document length.
pub open spec fn first_header_from(m: Seq<LineModel>, i: int) -> int
    decreases m.len() - i,
{
    if i < 0 || i >= m.len() {
        m.len() as int
    } else if m[i] is Header {
        i
    } else {
        first_header_from(m, i + 1)
    }
}

/// The last plain `[names]` header among the first `n` lines.
pub open spec fn last_table_header(m: Seq<LineModel>, names: Seq<Seq<char>>, n: int) -> Option<int>
    decreases n,
{
    if n <= 0 {
        None
    } else {
        match m[n - 1] {
            LineModel::Header { path, array, .. } => {
                if !array && path == names {
                    Some(n - 1)
                } else {
                    last_table_header(m, names, n - 1)
                }
            },
            _ => last_table_header(m, names, n - 1),
        }
    }
}

/// A dotted key path as it is written inside a header.
pub open spec fn join_dots(names: Seq<Seq<char>>) -> Seq<char>
    decreases names.len(),
{
    if names.len() == 0 {
        Seq::<char>::empty()
    } else if names.len() == 1 {
        names[0]
    } else {
        names[0] + seq!['.'] + join_dots(names.skip(1))
    }
}

/// A freshly synthesized `key = value` line.
pub open spec fn new_kv_line(key: Seq<char>, leaf: LeafModel) -> LineModel {
    LineModel::KeyVal {
        prefix: key + seq![' ', '=', ' '],
        value_text: leaf.value_text,
        suffix: Seq::<char>::empty(),
        key: seq![key],
        value: leaf.value,
    }
}

/// A freshly synthesized `[names]` header line.
pub open spec fn new_header_line(names: Seq<Seq<char>>) -> LineModel {
    LineModel::Header { text: seq!['['] + join_dots(names) + seq![']'], path: names, array: false }
}

/// Where and how a missing leaf is inserted: at the end of the root section,
/// at the end of its table's last section, or as a new header and key at the
/// end of the document.
pub open spec fn spec_insert_leaf(m: Seq<LineModel>, leaf: LeafModel) -> Seq<LineModel> {
    let names = key_names(leaf.path);
    let key = names.last();
    let parent = names.drop_last();
    if parent.len() == 0 {
        m.insert(first_header_from(m, 0), new_kv_line(key, leaf))
    } else {
        match last_table_header(m, parent, m.len() as int) {
            Some(h) => m.insert(first_header_from(m, h + 1), new_kv_line(key, leaf)),
            None => m + seq![new_header_line(parent), new_kv_line(key, leaf)],
        }
    }
}

/// One patch step for one canonical leaf.
pub open spec fn spec_patch_one(m: Seq<LineModel>, leaf: LeafModel) -> Seq<LineModel> {
    match spec_find_leaf(m, leaf.path) {
        Some(i) => {
            if spec_line_value_eq(m[i], leaf.value) {
                m
            } else {
                m.update(i, spec_replace_line(m[i], leaf))
            }
        },
        None => {
            if spec_all_keys(leaf.path) && leaf.path.len() >= 1 {
                spec_insert_leaf(m, leaf)
            } else {
                m
            }
        },
    }
}

/// The whole patch: the leaves applied in order.
pub open spec fn spec_patch(m: Seq<LineModel>, ls: Seq<LeafModel>) -> Seq<LineModel>
    decreases ls.len(),
{
    if ls.len() == 0 {
        m
    } else {
        spec_patch(spec_patch_one(m, ls[0]), ls.skip(1))
    }
}

/// Characterizes `spec_find_leaf_from`: no match in `[i, j)`, and a match at
/// `j` (or none at all when `j` is the length).
pub proof fn lemma_find_leaf_from_is(m: Seq<LineModel>, p: Seq<SegModel>, i: int, j: int)
    requires
        0 <= i <= j <= m.len(),
        forall|k: int| i <= k < j ==> line_path(m, k) != Some(p),
        j < m.len() ==> line_path(m, j) == Some(p),
    ensures
        spec_find_leaf_from(m, p, i) == if j < m.len() {
            Some(j)
        } else {
            None::<int>
        },
    decreases j - i,
{
    if i < j {
        lemma_find_leaf_from_is(m, p, i + 1, j);
    }
}

/// Finds the first line whose full path is `p`.
fn find_leaf_idx(
    lines: &Vec<DocLine>,
    paths: &Vec<Option<Vec<PathSeg>>>,
    p: &Vec<PathSeg>,
) -> (r: Option<usize>)
    requires
        paths@.len() == lines@.len(),
        forall|i: int|
            0 <= i < lines@.len() ==> match #[trigger] paths@[i] {
                Some(q) => line_path(doc_model(lines@), i) == Some(path_model(q@)),
                None => line_path(doc_model(lines@), i) is None,
            },
    ensures
        match r {
            Some(i) => spec_find_leaf(doc_model(lines@), path_model(p@)) == Some(i as int) && i
                < lines@.len() && line_path(doc_model(lines@), i as int) == Some(path_model(p@)),
            None => spec_find_leaf(doc_model(lines@), path_model(p@)) is None,
        },
{
    let ghost m = doc_model(lines@);
    let ghost pm = path_model(p@);
    let mut i: usize = 0;
    while i < paths.len()
        invariant
            paths@.len() == lines@.len(),
            m == doc_model(lines@),
            pm == path_model(p@),
            i <= paths@.len(),
            forall|k: int|
                0 <= k < lines@.len() ==> match #[trigger] paths@[k] {
                    Some(q) => line_path(m, k) == Some(path_model(q@)),
                    None => line_path(m, k) is None,
                },
            forall|k: int| 0 <= k < i ==> line_path(m, k) != Some(pm),
        decreases paths@.len() - i,
    {
        let hit = match &paths[i] {
            Some(q) => path_eq(q, p),
            None => false,
        };
        if hit {
            proof {
                lemma_find_leaf_from_is(m, pm, 0, i as int);
            }
            return Some(i);
        }
        i = i + 1;
    }
    proof {
        lemma_find_leaf_from_is(m, pm, 0, m.len() as int);
    }
    None
}

/// Finds the first header line at or after `i`.
fn first_header_idx(lines: &Vec<DocLine>, i: usize) -> (r: usize)
    requires
        i <= lines@.len(),
    ensures
        r as int == first_header_from(doc_model(lines@), i as int),
        i <= r <= lines@.len(),
    decreases lines@.len() - i,
{
    proof {
        if i < lines@.len() {
            assert(doc_model(lines@)[i as int] == line_model(lines@[i as int]));
        }
    }
    if i < lines.len() {
        match &lines[i] {
            DocLine::Header { .. } => i,
            _ => first_header_idx(lines, i + 1),
        }
    } else {
        i
    }
}

/// Finds the last plain `[names]` header.
fn last_table_idx(lines: &Vec<DocLine>, names: &Vec<String>) -> (r: Option<usize>)
    ensures
        match r {
            Some(h) => last_table_header(
                doc_model(lines@),
                strings_model(names@),
                lines@.len() as int,
            ) == Some(h as int) && h < lines@.len(),
            None => last_table_header(
                doc_model(lines@),
                strings_model(names@),
                lines@.len() as int,
            ) is None,
        },
{
    let ghost m = doc_model(lines@);
    let ghost nm = strings_model(names@);
    let mut best: Option<usize> = None;
    let mut k: usize = 0;
    while k < lines.len()
        invariant
            m == doc_model(lines@),
            nm == strings_model(names@),
            k <= lines@.len(),
            match best {
                Some(h) => last_table_header(m, nm, k as int) == Some(h as int) && h < k,
                None => last_table_header(m, nm, k as int) is None,
            },
        decreases lines@.len() - k,
    {
        proof {
            assert(m[k as int] == line_model(lines@[k as int]));
        }
        match &lines[k] {
            DocLine::Header { path, array, .. } => {
                if !*array && str_list_eq(path, names) {
                    best = Some(k);
                }
            },
            _ => {},
        }
        k = k + 1;
    }
    best
}

pub proof fn lemma_join_dots_push(names: Seq<Seq<char>>, x: Seq<char>)
    ensures
        join_dots(names.push(x)) == if names.len() == 0 {
            x
        } else {
            join_dots(names) + seq!['.'] + x
        },
    decreases names.len(),
{
    let p = names.push(x);
    if names.len() == 0 {
        assert(p.len() == 1);
        assert(p[0] == x);
    } else {
        assert(p[0] == names[0]);
        assert(p.skip(1) =~= names.skip(1).push(x));
        lemma_join_dots_push(names.skip(1), x);
        if names.len() == 1 {
            assert(join_dots(p) == p[0] + seq!['.'] + join_dots(p.skip(1)));
            assert(join_dots(names.skip(1)) =~= Seq::<char>::empty());
            assert(join_dots(names.skip(1).push(x)) == x);
            assert(join_dots(names) == names[0]);
        } else {
            assert(join_dots(p) == p[0] + seq!['.'] + join_dots(p.skip(1)));
            assert(names[0] + seq!['.'] + (join_dots(names.skip(1)) + seq!['.'] + x) =~= (names[0]
                + seq!['.'] + join_dots(names.skip(1))) + seq!['.'] + x);
        }
    }
}

/// Builds a fresh `key = value` line for a missing leaf.
fn build_kv_line(key: &String, leaf: &CanonicalLeaf) -> (r: DocLine)
    ensures
        line_model(r) == new_kv_line(key@, leaf_model(*leaf)),
{
    let mut prefix = key.clone();
    prefix.push(' ');
    prefix.push('=');
    prefix.push(' ');
    proof {
        assert(prefix@ =~= key@ + seq![' ', '=', ' ']);
    }
    let mut key_list: Vec<String> = Vec::new();
    key_list.push(key.clone());
    proof {
        assert(strings_model(key_list@) =~= seq![key@]);
    }
    let r = DocLine::KeyVal {
        prefix,
        value_text: leaf.value_text.clone(),
        suffix: String::new(),
        key: key_list,
        value: clone_value(&leaf.value),
    };
    r
}

/// Builds a fresh `[names]` header line.
fn build_header_line(names: &Vec<String>) -> (r: DocLine)
    ensures
        line_model(r) == new_header_line(strings_model(names@)),
{
    let mut text = String::new();
    text.push('[');
    let mut k: usize = 0;
    proof {
        assert(strings_model(names@.take(0)) =~= Seq::<Seq<char>>::empty());
        assert(text@ =~= seq!['['] + join_dots(strings_model(names@.take(0))));
    }
    while k < names.len()
        invariant
            k <= names@.len(),
            text@ == seq!['['] + join_dots(strings_model(names@.take(k as int))),
        decreases names@.len() - k,
    {
        if k > 0 {
            text.push('.');
        }
        let ghost before = text@;
        let part = names[k].clone();
        text.append(part.as_str());
        k = k + 1;
        proof {
            let prev = strings_model(names@.take(k - 1));
            let cur = strings_model(names@.take(k as int));
            assert(cur =~= prev.push(names@[k - 1]@));
            lemma_join_dots_push(prev, names@[k - 1]@);
            if k == 1 {
                assert(text@ =~= seq!['['] + join_dots(cur));
            } else {
                assert(text@ =~= seq!['['] + join_dots(cur));
            }
        }
    }
    text.push(']');
    proof {
        assert(strings_model(names@.take(names@.len() as int)) =~= strings_model(names@));
        assert(text@ =~= seq!['['] + join_dots(strings_model(names@)) + seq![']']);
    }
    DocLine::Header { text, path: clone_strings(names), array: false }
}

/// Applies one canonical leaf to the document lines.
fn patch_one(lines: &mut Vec<DocLine>, leaf: &CanonicalLeaf)
    ensures
        doc_model(final(lines)@) == spec_patch_one(doc_model(old(lines)@), leaf_model(*leaf)),
{
    let ghost m = doc_model(lines@);
    let ghost lm = leaf_model(*leaf);
    let paths = line_paths(lines);
    match find_leaf_idx(lines, &paths, &leaf.path) {
        Some(i) => {
            proof {
                assert(line_path(m, i as int) is Some);
                assert(m[i as int] == line_model(lines@[i as int]));
                assert(m[i as int] is KeyVal);
            }
            let equal = match &lines[i] {
                DocLine::KeyVal { value, .. } => scalar_eq(value, &leaf.value),
                _ => {
                    proof {
                        assert(false);
                    }
                    false
                },
            };
            if equal {
                return;
            }
            let nl = match &lines[i] {
                DocLine::KeyVal { prefix, suffix, key, .. } => DocLine::KeyVal {
                    prefix: prefix.clone(),
                    value_text: leaf.value_text.clone(),
                    suffix: suffix.clone(),
                    key: clone_strings(key),
                    value: clone_value(&leaf.value),
                },
                _ => {
                    proof {
                        assert(false);
                    }
                    DocLine::Other { text: String::new() }
                },
            };
            proof {
                assert(line_model(nl) == spec_replace_line(m[i as int], lm));
            }
            lines.set(i, nl);
            proof {
                assert(doc_model(lines@) =~= m.update(
                    i as int,
                    spec_replace_line(m[i as int], lm),
                ));
            }
        },
        None => {
            // Gather the plain key names; a path through an array of tables
            // is not synthesized.
            let mut names: Vec<String> = Vec::new();
            let mut all = true;
            let mut k: usize = 0;
            proof {
                assert(path_model(leaf.path@.take(0)) =~= Seq::<SegModel>::empty());
            }
            while k < leaf.path.len()
                invariant
                    k <= leaf.path@.len(),
                    all ==> (forall|j: int| 0 <= j < k ==> leaf.path@[j] is Key),
                    all ==> strings_model(names@) == key_names(
                        path_model(leaf.path@.take(k as int)),
                    ),
                    !all ==> !spec_all_keys(path_model(leaf.path@)),
                    names@.len() <= k,
                decreases leaf.path@.len() - k,
            {
                match &leaf.path[k] {
                    PathSeg::Key(s) => {
                        if all {
                            let ghost names0 = names@;
                            names.push(s.clone());
                            proof {
                                let pm_prev = path_model(leaf.path@.take(k as int));
                                let pm_cur = path_model(leaf.path@.take(k + 1));
                                assert(pm_cur =~= pm_prev.push(
                                    crate::document::seg_model(leaf.path@[k as int]),
                                ));
                                assert(strings_model(names@) =~= strings_model(names0).push(s@));
                                assert(key_names(pm_prev.push(SegModel::Key(s@))) =~= key_names(
                                    pm_prev,
                                ).push(s@));
                            }
                        }
                    },
                    PathSeg::Idx(_) => {
                        proof {
                            assert(path_model(leaf.path@)[k as int] == crate::document::seg_model(
                                leaf.path@[k as int],
                            ));
                            assert(!spec_all_keys(path_model(leaf.path@)));
                        }
                        all = false;
                    },
                }
                k = k + 1;
            }
            if !all || names.len() == 0 {
                proof {
                    if all {
                        assert(path_model(leaf.path@).len() == 0);
                    }
                }
                return;
            }
            proof {
                assert(leaf.path@.take(leaf.path@.len() as int) =~= leaf.path@);
                assert(spec_all_keys(lm.path)) by {
                    assert(forall|j: int|
                        0 <= j < leaf.path@.len() ==> path_model(leaf.path@)[j]
                            == crate::document::seg_model(#[trigger] leaf.path@[j]));
                }
                assert(strings_model(names@) == key_names(lm.path));
            }
            let mut parent = names;
            let key = match parent.pop() {
                Some(s) => s,
                None => {
                    proof {
                        assert(false);
                    }
                    String::new()
                },
            };
            proof {
                assert(key@ == key_names(lm.path).last());
                assert(strings_model(parent@) =~= key_names(lm.path).drop_last());
            }
            let kv = build_kv_line(&key, leaf);
            if parent.len() == 0 {
                let pos = first_header_idx(lines, 0);
                lines.insert(pos, kv);
                proof {
                    assert(doc_model(lines@) =~= m.insert(
                        first_header_from(m, 0),
                        new_kv_line(key_names(lm.path).last(), lm),
                    ));
                }
            } else {
                match last_table_idx(lines, &parent) {
                    Some(h) => {
                        let n = lines.len();
                        proof {
                            assert(h < n);
                        }
                        let pos = first_header_idx(lines, h + 1);
                        lines.insert(pos, kv);
                        proof {
                            assert(doc_model(lines@) =~= m.insert(
                                first_header_from(m, h + 1),
                                new_kv_line(key_names(lm.path).last(), lm),
                            ));
                        }
                    },
                    None => {
                        let header = build_header_line(&parent);
                        lines.push(header);
                        lines.push(kv);
                        proof {
                            assert(doc_model(lines@) =~= m + seq![
                                new_header_line(key_names(lm.path).drop_last()),
                                new_kv_line(key_names(lm.path).last(), lm),
                            ]);
                        }
                    },
                }
            }
        },
    }
}

/// Applies every canonical leaf to the document, in order.
pub fn patch_leaves(doc: &mut DiskDocument, leaves: &Vec<CanonicalLeaf>)
    ensures
        doc_model(final(doc).lines@) == spec_patch(doc_model(old(doc).lines@), leaves_model(
            leaves@,
        )),
{
    let ghost m0 = doc_model(doc.lines@);
    let ghost ls = leaves_model(leaves@);
    let mut i: usize = 0;
    proof {
        assert(ls.skip(0) =~= ls);
    }
    while i < leaves.len()
        invariant
            i <= leaves@.len(),
            ls == leaves_model(leaves@),
            spec_patch(m0, ls) == spec_patch(doc_model(doc.lines@), ls.skip(i as int)),
        decreases leaves@.len() - i,
    {
        let ghost before = doc_model(doc.lines@);
        patch_one(&mut doc.lines, &leaves[i]);
        i = i + 1;
        proof {
            assert(ls.skip(i - 1)[0] == ls[i - 1]);
            assert(ls.skip(i - 1).skip(1) =~= ls.skip(i as int));
            assert(spec_patch(before, ls.skip(i - 1)) == spec_patch(
                spec_patch_one(before, ls[i - 1]),
                ls.skip(i as int),
            ));
        }
    }
    proof {
        assert(ls.skip(leaves@.len() as int) =~= Seq::<LeafModel>::empty());
    }
}

/// The value of the first leaf at a key path.
pub open spec fn spec_lookup(m: Seq<LineModel>, p: Seq<SegModel>) -> Option<ScalarModel> {
    match spec_find_leaf(m, p) {
        Some(i) => Some(m[i]->KeyVal_value),
        None => None,
    }
}

impl DiskDocument {
    /// Looks a leaf up by its full key path.
    pub fn lookup(&self, path: &Vec<PathSeg>) -> (r: Option<&TomlValue>)
        ensures
            match r {
                Some(v) => spec_lookup(self.model(), path_model(path@)) == Some(scalar_model(*v)),
                None => spec_lookup(self.model(), path_model(path@)) is None,
            },
    {
        let paths = line_paths(&self.lines);
        match find_leaf_idx(&self.lines, &paths, path) {
            Some(i) => {
                proof {
                    assert(self.model()[i as int] == line_model(self.lines@[i as int]));
                    assert(self.model()[i as int] is KeyVal);
                }
                match &self.lines[i] {
                    DocLine::KeyVal { value, .. } => Some(value),
                    _ => {
                        proof {
                            assert(false);
                        }
                        None
                    },
                }
            },
            None => None,
        }
    }
}

impl DiskDocument {
    /// Merges the differing leaves of the canonical document into this one,
    /// leaving every other byte of the formatted text untouched.
    pub fn patch(&mut self, canonical: &DiskDocument)
        ensures
            doc_model(final(self).lines@) == spec_patch(
                doc_model(old(self).lines@),
                spec_leaves(canonical.model()),
            ),
    {
        let leaves = canonical.leaves();
        patch_leaves(self, &leaves);
    }
}

} // verus!
