use vstd::prelude::*;
use crate::document::{model_text, LeafModel, LineModel, ScalarModel, SegModel};
use crate::document::leaves::{header_ctx, keys_model, line_path, occ, spec_scalar_eq};
use crate::document::patch::{first_header_from, key_names, last_table_header, new_header_line,
    new_kv_line, spec_all_keys, spec_find_leaf, spec_find_leaf_from, spec_insert_leaf,
    spec_line_value_eq, spec_patch, spec_patch_one, spec_replace_line};

verus! {

// The laws of the patcher.  Everything here is proved from the spec-level
// patch model alone:
//   - a patch whose every leaf already matches the disk changes nothing
//     (formatting preservation);
//   - patching twice with the same canonical leaves equals patching once
//     (idempotence);
//   - after a patch, every leaf with a plain key path is present with its
//     canonical value, whether it was replaced or synthesized.
/// The leaf's path resolves on disk and holds an equal value.
pub open spec fn leaf_up_to_date(m: Seq<LineModel>, l: LeafModel) -> bool {
    match spec_find_leaf(m, l.path) {
        Some(i) => spec_line_value_eq(m[i], l.value),
        None => false,
    }
}

/// The leaf needs no further work: present and equal, or absent with a path
/// the patcher does not synthesize (one through an array of tables).
pub open spec fn leaf_settled(m: Seq<LineModel>, l: LeafModel) -> bool {
    leaf_up_to_date(m, l) || (spec_find_leaf(m, l.path) is None && !(spec_all_keys(l.path)
        && l.path.len() >= 1))
}

/// No two canonical leaves share a key path.
pub open spec fn distinct_paths(ls: Seq<LeafModel>) -> bool {
    forall|i: int, j: int| 0 <= i < j < ls.len() ==> ls[i].path != ls[j].path
}

/// Two lines agree on everything a table context can see.
pub open spec fn hdr_eqv(a: LineModel, b: LineModel) -> bool {
    (a is Header ==> b == a) && (b is Header ==> a == b)
}

proof fn lemma_occ_same_headers(m1: Seq<LineModel>, m2: Seq<LineModel>, p: Seq<Seq<char>>, j: int)
    requires
        0 <= j <= m1.len(),
        j <= m2.len(),
        forall|k: int| 0 <= k < j ==> #[trigger] hdr_eqv(m1[k], m2[k]),
    ensures
        occ(m1, j, p) == occ(m2, j, p),
    decreases j,
{
    if j > 0 {
        lemma_occ_same_headers(m1, m2, p, j - 1);
        assert(hdr_eqv(m1[j - 1], m2[j - 1]));
    }
}

proof fn lemma_ctx_same_headers(m1: Seq<LineModel>, m2: Seq<LineModel>, j: int)
    requires
        0 <= j <= m1.len(),
        j <= m2.len(),
        forall|k: int| 0 <= k < j ==> #[trigger] hdr_eqv(m1[k], m2[k]),
    ensures
        header_ctx(m1, j) == header_ctx(m2, j),
    decreases j,
{
    if j > 0 {
        assert(hdr_eqv(m1[j - 1], m2[j - 1]));
        if m1[j - 1] is Header {
            let path = m1[j - 1]->Header_path;
            lemma_occ_same_headers(m1, m2, path, j - 1);
        } else {
            lemma_ctx_same_headers(m1, m2, j - 1);
        }
    }
}

/// Replacing a leaf value changes no line's key path.
proof fn lemma_line_path_replace(m: Seq<LineModel>, i: int, leaf: LeafModel)
    requires
        0 <= i < m.len(),
        m[i] is KeyVal,
    ensures
        forall|j: int|
            0 <= j < m.len() ==> line_path(m.update(i, spec_replace_line(m[i], leaf)), j)
                == line_path(m, j),
{
    let m2 = m.update(i, spec_replace_line(m[i], leaf));
    assert forall|j: int| 0 <= j < m.len() implies line_path(m2, j) == line_path(m, j) by {
        assert(forall|k: int| 0 <= k < m.len() ==> #[trigger] hdr_eqv(m[k], m2[k]));
        lemma_ctx_same_headers(m2, m, j);
    }
}

/// Finding is the same in two documents whose lines carry the same paths.
proof fn lemma_find_same(
    m1: Seq<LineModel>,
    m2: Seq<LineModel>,
    p: Seq<SegModel>,
    i: int,
)
    requires
        m1.len() == m2.len(),
        0 <= i,
        forall|j: int| 0 <= j < m1.len() ==> #[trigger] line_path(m1, j) == line_path(m2, j),
    ensures
        spec_find_leaf_from(m1, p, i) == spec_find_leaf_from(m2, p, i),
    decreases m1.len() - i,
{
    if i < m1.len() {
        lemma_find_same(m1, m2, p, i + 1);
    }
}

/// Characterizes a find: the result matches and nothing before it does.
proof fn lemma_find_leaf_char(m: Seq<LineModel>, p: Seq<SegModel>, i: int)
    requires
        0 <= i <= m.len(),
    ensures
        match spec_find_leaf_from(m, p, i) {
            Some(j) => i <= j < m.len() && line_path(m, j) == Some(p) && (forall|k: int|
                i <= k < j ==> line_path(m, k) != Some(p)),
            None => forall|k: int| i <= k < m.len() ==> line_path(m, k) != Some(p),
        },
    decreases m.len() - i,
{
    if i < m.len() && line_path(m, i) != Some(p) {
        lemma_find_leaf_char(m, p, i + 1);
    }
}

proof fn lemma_occ_insert(m: Seq<LineModel>, pos: int, x: LineModel, p: Seq<Seq<char>>, j: int)
    requires
        !(x is Header),
        0 <= pos <= m.len(),
        0 <= j <= m.len() + 1,
    ensures
        occ(m.insert(pos, x), j, p) == occ(
            m,
            if j <= pos {
                j
            } else {
                j - 1
            },
            p,
        ),
    decreases j,
{
    m.insert_ensures(pos, x);
    if j > 0 {
        lemma_occ_insert(m, pos, x, p, j - 1);
        let ins = m.insert(pos, x);
        if j - 1 < pos {
            assert(ins[j - 1] == m[j - 1]);
        } else if j - 1 == pos {
            assert(ins[j - 1] == x);
        } else {
            assert(ins[j - 1] == m[j - 2]);
        }
    }
}

proof fn lemma_ctx_insert(m: Seq<LineModel>, pos: int, x: LineModel, j: int)
    requires
        !(x is Header),
        0 <= pos <= m.len(),
        0 <= j <= m.len() + 1,
    ensures
        header_ctx(m.insert(pos, x), j) == header_ctx(
            m,
            if j <= pos {
                j
            } else {
                j - 1
            },
        ),
    decreases j,
{
    m.insert_ensures(pos, x);
    let ins = m.insert(pos, x);
    if j > 0 {
        if j - 1 < pos {
            assert(ins[j - 1] == m[j - 1]);
            if m[j - 1] is Header {
                lemma_occ_insert(m, pos, x, m[j - 1]->Header_path, j - 1);
            } else {
                lemma_ctx_insert(m, pos, x, j - 1);
            }
        } else if j - 1 == pos {
            assert(ins[j - 1] == x);
            lemma_ctx_insert(m, pos, x, j - 1);
        } else {
            assert(ins[j - 1] == m[j - 2]);
            if m[j - 2] is Header {
                lemma_occ_insert(m, pos, x, m[j - 2]->Header_path, j - 1);
            } else {
                lemma_ctx_insert(m, pos, x, j - 1);
            }
        }
    }
}

/// How the lines' paths move under an insertion of a key-value line.
proof fn lemma_line_path_insert(m: Seq<LineModel>, pos: int, x: LineModel, j: int)
    requires
        !(x is Header),
        0 <= pos <= m.len(),
    ensures
        0 <= j < pos ==> line_path(m.insert(pos, x), j) == line_path(m, j),
        pos < j <= m.len() ==> line_path(m.insert(pos, x), j) == line_path(m, j - 1),
{
    m.insert_ensures(pos, x);
    if 0 <= j < pos {
        lemma_ctx_insert(m, pos, x, j);
    } else if pos < j <= m.len() {
        lemma_ctx_insert(m, pos, x, j);
    }
}

/// How a find moves under an insertion whose new line does not match.
proof fn lemma_find_insert(m: Seq<LineModel>, pos: int, x: LineModel, p: Seq<SegModel>)
    requires
        !(x is Header),
        0 <= pos <= m.len(),
        line_path(m.insert(pos, x), pos) != Some(p),
    ensures
        spec_find_leaf(m.insert(pos, x), p) == match spec_find_leaf(m, p) {
            Some(j) => Some(
                if j < pos {
                    j
                } else {
                    j + 1
                },
            ),
            None => None::<int>,
        },
{
    m.insert_ensures(pos, x);
    let ins = m.insert(pos, x);
    lemma_find_leaf_char(m, p, 0);
    assert forall|j: int| 0 <= j < pos implies line_path(ins, j) == line_path(m, j) by {
        lemma_line_path_insert(m, pos, x, j);
    }
    assert forall|j: int| pos < j <= m.len() implies line_path(ins, j) == line_path(m, j - 1) by {
        lemma_line_path_insert(m, pos, x, j);
    }
    match spec_find_leaf(m, p) {
        Some(j) => {
            if j < pos {
                lemma_find_leaf_from_is_pub(ins, p, j);
            } else {
                assert(line_path(ins, j + 1) == Some(p));
                assert forall|k: int| 0 <= k < j + 1 implies line_path(ins, k) != Some(p) by {
                    if k < pos {
                        assert(line_path(ins, k) == line_path(m, k));
                    } else if k == pos {
                    } else {
                        assert(line_path(ins, k) == line_path(m, k - 1));
                    }
                }
                lemma_find_leaf_from_is_pub(ins, p, j + 1);
            }
        },
        None => {
            assert forall|k: int| 0 <= k < ins.len() implies line_path(ins, k) != Some(p) by {
                if k < pos {
                    assert(line_path(ins, k) == line_path(m, k));
                } else if k == pos {
                } else {
                    assert(line_path(ins, k) == line_path(m, k - 1));
                }
            }
            lemma_find_none(ins, p, 0);
        },
    }
}

/// A find that must succeed at `j`.
proof fn lemma_find_leaf_from_is_pub(m: Seq<LineModel>, p: Seq<SegModel>, j: int)
    requires
        0 <= j < m.len(),
        line_path(m, j) == Some(p),
        forall|k: int| 0 <= k < j ==> line_path(m, k) != Some(p),
    ensures
        spec_find_leaf(m, p) == Some(j),
{
    lemma_find_from_is(m, p, 0, j);
}

proof fn lemma_find_from_is(m: Seq<LineModel>, p: Seq<SegModel>, i: int, j: int)
    requires
        0 <= i <= j < m.len(),
        line_path(m, j) == Some(p),
        forall|k: int| i <= k < j ==> line_path(m, k) != Some(p),
    ensures
        spec_find_leaf_from(m, p, i) == Some(j),
    decreases j - i,
{
    if i < j {
        lemma_find_from_is(m, p, i + 1, j);
    }
}

proof fn lemma_find_none(m: Seq<LineModel>, p: Seq<SegModel>, i: int)
    requires
        0 <= i <= m.len(),
        forall|k: int| i <= k < m.len() ==> line_path(m, k) != Some(p),
    ensures
        spec_find_leaf_from(m, p, i) is None,
    decreases m.len() - i,
{
    if i < m.len() {
        lemma_find_none(m, p, i + 1);
    }
}

/// Characterizes `first_header_from`.
proof fn lemma_first_header_char(m: Seq<LineModel>, i: int)
    requires
        0 <= i <= m.len(),
    ensures
        i <= first_header_from(m, i) <= m.len(),
        first_header_from(m, i) < m.len() ==> m[first_header_from(m, i)] is Header,
        forall|k: int| i <= k < first_header_from(m, i) ==> !(m[k] is Header),
    decreases m.len() - i,
{
    if i < m.len() && !(m[i] is Header) {
        lemma_first_header_char(m, i + 1);
    }
}

/// Characterizes `last_table_header`.
proof fn lemma_last_table_char(m: Seq<LineModel>, names: Seq<Seq<char>>, n: int)
    requires
        0 <= n <= m.len(),
    ensures
        match last_table_header(m, names, n) {
            Some(h) => 0 <= h < n && m[h] is Header && m[h]->Header_path == names && !(
            m[h]->Header_array),
            None => true,
        },
    decreases n,
{
    if n > 0 {
        lemma_last_table_char(m, names, n - 1);
    }
}

/// The context does not change across a header-free stretch.
proof fn lemma_ctx_no_headers(m: Seq<LineModel>, a: int, b: int)
    requires
        0 <= a <= b <= m.len(),
        forall|k: int| a <= k < b ==> !(m[k] is Header),
    ensures
        header_ctx(m, b) == header_ctx(m, a),
    decreases b - a,
{
    if a < b {
        lemma_ctx_no_headers(m, a, b - 1);
    }
}

/// Plain key paths survive the round trip through their names.
proof fn lemma_keys_roundtrip(p: Seq<SegModel>)
    requires
        spec_all_keys(p),
    ensures
        keys_model(key_names(p)) == p,
{
    assert(keys_model(key_names(p)) =~= p);
}

proof fn lemma_scalar_eq_refl(v: ScalarModel)
    ensures
        spec_scalar_eq(v, v),
{
}

/// After inserting a missing leaf, the leaf resolves to its value, and every
/// other path's find is carried over with its line.
proof fn lemma_insert_leaf_props(m: Seq<LineModel>, leaf: LeafModel)
    requires
        spec_find_leaf(m, leaf.path) is None,
        spec_all_keys(leaf.path),
        leaf.path.len() >= 1,
    ensures
        leaf_up_to_date(spec_insert_leaf(m, leaf), leaf),
        forall|p: Seq<SegModel>|
            p != leaf.path ==> match (
                spec_find_leaf(m, p),
                #[trigger] spec_find_leaf(spec_insert_leaf(m, leaf), p),
            ) {
                (Some(j), Some(j2)) => spec_insert_leaf(m, leaf)[j2] == m[j],
                (None, None) => true,
                _ => false,
            },
{
    let names = key_names(leaf.path);
    let key = names.last();
    let parent = names.drop_last();
    let kv = new_kv_line(key, leaf);
    let m2 = spec_insert_leaf(m, leaf);
    lemma_keys_roundtrip(leaf.path);
    lemma_find_leaf_char(m, leaf.path, 0);
    assert(keys_model(kv->KeyVal_key) =~= seq![SegModel::Key(key)]);
    assert(keys_model(parent).push(SegModel::Key(key)) =~= keys_model(names));

    if parent.len() == 0 {
        let pos = first_header_from(m, 0);
        lemma_first_header_char(m, 0);
        m.insert_ensures(pos, kv);
        assert(m2 == m.insert(pos, kv));
        lemma_ctx_insert(m, pos, kv, pos);
        lemma_ctx_no_headers(m, 0, pos);
        assert(header_ctx(m2, pos) == header_ctx(m, 0));
        assert(header_ctx(m, 0) =~= Seq::<SegModel>::empty());
        assert(line_path(m2, pos) == Some(header_ctx(m2, pos) + keys_model(kv->KeyVal_key)));
        assert(header_ctx(m2, pos) + seq![SegModel::Key(key)] =~= keys_model(names));
        assert(line_path(m2, pos) == Some(leaf.path));
        lemma_insert_common(m, pos, kv, leaf);
    } else {
        match last_table_header(m, parent, m.len() as int) {
            Some(h) => {
                lemma_last_table_char(m, parent, m.len() as int);
                let pos = first_header_from(m, h + 1);
                lemma_first_header_char(m, h + 1);
                m.insert_ensures(pos, kv);
                assert(m2 == m.insert(pos, kv));
                lemma_ctx_insert(m, pos, kv, pos);
                lemma_ctx_no_headers(m, h + 1, pos);
                assert(header_ctx(m, h + 1) == keys_model(parent));
                assert(line_path(m2, pos) == Some(
                    header_ctx(m2, pos) + keys_model(kv->KeyVal_key),
                ));
                assert(header_ctx(m2, pos) + seq![SegModel::Key(key)] =~= keys_model(names));
                assert(line_path(m2, pos) == Some(leaf.path));
                lemma_insert_common(m, pos, kv, leaf);
            },
            None => {
                let hdr = new_header_line(parent);
                assert(m2 == m + seq![hdr, kv]);
                let pos = m.len() as int + 1;
                assert(m2.len() == m.len() + 2);
                assert(m2[pos] == kv);
                assert(m2[m.len() as int] == hdr);
                // Paths of the old lines are unchanged.
                assert forall|j: int| 0 <= j < m.len() implies line_path(m2, j) == line_path(
                    m,
                    j,
                ) by {
                    assert(forall|k: int| 0 <= k < j ==> #[trigger] hdr_eqv(m2[k], m[k]));
                    lemma_ctx_same_headers(m2, m, j);
                    assert(m2[j] == m[j]);
                }
                // The appended header sets the context for the appended leaf.
                assert(header_ctx(m2, pos) == keys_model(parent));
                assert(line_path(m2, pos) == Some(header_ctx(m2, pos) + keys_model(
                    kv->KeyVal_key,
                )));
                assert(header_ctx(m2, pos) + seq![SegModel::Key(key)] =~= keys_model(names));
                assert(line_path(m2, pos) == Some(leaf.path));
                assert forall|k: int| 0 <= k < pos implies line_path(m2, k) != Some(
                    leaf.path,
                ) by {
                    if k < m.len() {
                        assert(line_path(m2, k) == line_path(m, k));
                    } else {
                        assert(m2[k] == hdr);
                    }
                }
                lemma_find_leaf_from_is_pub(m2, leaf.path, pos);
                lemma_scalar_eq_refl(leaf.value);
                assert(leaf_up_to_date(m2, leaf));
                assert forall|p: Seq<SegModel>| p != leaf.path implies match (
                    spec_find_leaf(m, p),
                    #[trigger] spec_find_leaf(m2, p),
                ) {
                    (Some(j), Some(j2)) => m2[j2] == m[j],
                    (None, None) => true,
                    _ => false,
                } by {
                    lemma_find_leaf_char(m, p, 0);
                    match spec_find_leaf(m, p) {
                        Some(j) => {
                            assert(line_path(m2, j) == Some(p));
                            assert forall|k: int| 0 <= k < j implies line_path(m2, k) != Some(
                                p,
                            ) by {
                                assert(line_path(m2, k) == line_path(m, k));
                            }
                            lemma_find_leaf_from_is_pub(m2, p, j);
                        },
                        None => {
                            assert forall|k: int| 0 <= k < m2.len() implies line_path(m2, k)
                                != Some(p) by {
                                if k < m.len() {
                                    assert(line_path(m2, k) == line_path(m, k));
                                } else if k == m.len() {
                                    assert(m2[k] == hdr);
                                } else {
                                    assert(line_path(m2, k) == Some(leaf.path));
                                }
                            }
                            lemma_find_none(m2, p, 0);
                        },
                    }
                }
            },
        }
    }
}

/// Shared tail of the two in-place insertion cases: the leaf is found at
/// `pos` and every other find is carried over.
proof fn lemma_insert_common(m: Seq<LineModel>, pos: int, kv: LineModel, leaf: LeafModel)
    requires
        0 <= pos <= m.len(),
        !(kv is Header),
        kv is KeyVal,
        kv->KeyVal_value == leaf.value,
        spec_find_leaf(m, leaf.path) is None,
        line_path(m.insert(pos, kv), pos) == Some(leaf.path),
        spec_insert_leaf(m, leaf) == m.insert(pos, kv),
    ensures
        leaf_up_to_date(spec_insert_leaf(m, leaf), leaf),
        forall|p: Seq<SegModel>|
            p != leaf.path ==> match (
                spec_find_leaf(m, p),
                #[trigger] spec_find_leaf(spec_insert_leaf(m, leaf), p),
            ) {
                (Some(j), Some(j2)) => spec_insert_leaf(m, leaf)[j2] == m[j],
                (None, None) => true,
                _ => false,
            },
{
    let m2 = m.insert(pos, kv);
    m.insert_ensures(pos, kv);
    lemma_find_leaf_char(m, leaf.path, 0);
    assert forall|k: int| 0 <= k < pos implies line_path(m2, k) != Some(leaf.path) by {
        lemma_line_path_insert(m, pos, kv, k);
    }
    lemma_find_leaf_from_is_pub(m2, leaf.path, pos);
    lemma_scalar_eq_refl(leaf.value);
    assert(m2[pos] == kv);
    assert(leaf_up_to_date(m2, leaf));
    assert forall|p: Seq<SegModel>| p != leaf.path implies match (
        spec_find_leaf(m, p),
        #[trigger] spec_find_leaf(m2, p),
    ) {
        (Some(j), Some(j2)) => m2[j2] == m[j],
        (None, None) => true,
        _ => false,
    } by {
        lemma_find_insert(m, pos, kv, p);
        lemma_find_leaf_char(m, p, 0);
        match spec_find_leaf(m, p) {
            Some(j) => {
                if j < pos {
                    assert(m2[j] == m[j]);
                } else {
                    assert(m2[j + 1] == m[j]);
                }
            },
            None => {},
        }
    }
}

/// A settled leaf makes the patch step a no-op.
proof fn lemma_settled_noop(m: Seq<LineModel>, l: LeafModel)
    requires
        leaf_settled(m, l),
    ensures
        spec_patch_one(m, l) == m,
{
}

/// One patch step settles its own leaf.
proof fn lemma_patch_one_settles(m: Seq<LineModel>, l: LeafModel)
    ensures
        leaf_settled(spec_patch_one(m, l), l),
        spec_all_keys(l.path) && l.path.len() >= 1 ==> leaf_up_to_date(spec_patch_one(m, l), l),
        spec_find_leaf(m, l.path) is Some ==> leaf_up_to_date(spec_patch_one(m, l), l),
{
    match spec_find_leaf(m, l.path) {
        Some(i) => {
            lemma_find_leaf_char(m, l.path, 0);
            if spec_line_value_eq(m[i], l.value) {
            } else {
                let m2 = m.update(i, spec_replace_line(m[i], l));
                lemma_line_path_replace(m, i, l);
                lemma_find_same(m2, m, l.path, 0);
                assert(spec_find_leaf(m2, l.path) == Some(i));
                lemma_scalar_eq_refl(l.value);
                assert(m2[i] == spec_replace_line(m[i], l));
                assert(spec_line_value_eq(m2[i], l.value));
            }
        },
        None => {
            if spec_all_keys(l.path) && l.path.len() >= 1 {
                lemma_insert_leaf_props(m, l);
            }
        },
    }
}

/// One patch step for one leaf leaves every other settled leaf settled.
proof fn lemma_patch_one_preserves_settled(m: Seq<LineModel>, l1: LeafModel, l2: LeafModel)
    requires
        l1.path != l2.path,
        leaf_settled(m, l2),
    ensures
        leaf_settled(spec_patch_one(m, l1), l2),
{
    match spec_find_leaf(m, l1.path) {
        Some(i) => {
            lemma_find_leaf_char(m, l1.path, 0);
            if spec_line_value_eq(m[i], l1.value) {
            } else {
                let m2 = m.update(i, spec_replace_line(m[i], l1));
                lemma_line_path_replace(m, i, l1);
                lemma_find_same(m2, m, l2.path, 0);
                match spec_find_leaf(m, l2.path) {
                    Some(j) => {
                        lemma_find_leaf_char(m, l2.path, 0);
                        assert(j != i);
                        assert(m2[j] == m[j]);
                    },
                    None => {},
                }
            }
        },
        None => {
            if spec_all_keys(l1.path) && l1.path.len() >= 1 {
                lemma_insert_leaf_props(m, l1);
            }
        },
    }
}

/// Every patch step after a leaf's own leaves it settled.
proof fn lemma_patch_preserves_settled(m: Seq<LineModel>, ls: Seq<LeafModel>, l: LeafModel)
    requires
        forall|i: int| 0 <= i < ls.len() ==> (#[trigger] ls[i]).path != l.path,
        leaf_settled(m, l),
    ensures
        leaf_settled(spec_patch(m, ls), l),
    decreases ls.len(),
{
    if ls.len() > 0 {
        lemma_patch_one_preserves_settled(m, ls[0], l);
        assert(forall|i: int|
            0 <= i < ls.skip(1).len() ==> (#[trigger] ls.skip(1)[i]).path != l.path);
        lemma_patch_preserves_settled(spec_patch_one(m, ls[0]), ls.skip(1), l);
    }
}

/// A patch whose every leaf is settled changes nothing.
proof fn lemma_patch_noop(m: Seq<LineModel>, ls: Seq<LeafModel>)
    requires
        forall|i: int| 0 <= i < ls.len() ==> leaf_settled(m, #[trigger] ls[i]),
    ensures
        spec_patch(m, ls) == m,
    decreases ls.len(),
{
    if ls.len() > 0 {
        lemma_settled_noop(m, ls[0]);
        assert(forall|i: int|
            0 <= i < ls.skip(1).len() ==> leaf_settled(m, #[trigger] ls.skip(1)[i]));
        lemma_patch_noop(m, ls.skip(1));
    }
}

/// After a whole patch with distinct paths, every leaf is settled.
pub proof fn lemma_patch_settles_all(m: Seq<LineModel>, ls: Seq<LeafModel>)
    requires
        distinct_paths(ls),
    ensures
        forall|i: int| 0 <= i < ls.len() ==> leaf_settled(spec_patch(m, ls), #[trigger] ls[i]),
    decreases ls.len(),
{
    if ls.len() > 0 {
        let m1 = spec_patch_one(m, ls[0]);
        lemma_patch_one_settles(m, ls[0]);
        assert(forall|i: int|
            0 <= i < ls.skip(1).len() ==> (#[trigger] ls.skip(1)[i]).path != ls[0].path);
        lemma_patch_preserves_settled(m1, ls.skip(1), ls[0]);
        assert(distinct_paths(ls.skip(1))) by {
            assert forall|i: int, j: int| 0 <= i < j < ls.skip(1).len() implies (#[trigger] ls.skip(
                1,
            )[i]).path != (#[trigger] ls.skip(1)[j]).path by {
                assert(ls.skip(1)[i] == ls[i + 1]);
                assert(ls.skip(1)[j] == ls[j + 1]);
            }
        }
        lemma_patch_settles_all(m1, ls.skip(1));
        assert forall|i: int| 0 <= i < ls.len() implies leaf_settled(
            spec_patch(m, ls),
            #[trigger] ls[i],
        ) by {
            if i == 0 {
                assert(spec_patch(m, ls) == spec_patch(m1, ls.skip(1)));
            } else {
                assert(ls.skip(1)[i - 1] == ls[i]);
                assert(spec_patch(m, ls) == spec_patch(m1, ls.skip(1)));
            }
        }
    }
}

/// Formatting preservation: when every canonical leaf already stands on disk
/// with an equal value, the patch changes nothing — the rendered text is
/// byte-identical.
pub proof fn lemma_patch_preserves_formatting(m: Seq<LineModel>, ls: Seq<LeafModel>)
    requires
        forall|i: int| 0 <= i < ls.len() ==> leaf_up_to_date(m, #[trigger] ls[i]),
    ensures
        spec_patch(m, ls) == m,
        model_text(spec_patch(m, ls)) == model_text(m),
{
    assert(forall|i: int| 0 <= i < ls.len() ==> leaf_settled(m, #[trigger] ls[i]));
    lemma_patch_noop(m, ls);
}

/// Idempotence: patching twice with the same canonical leaves gives the same
/// document as patching once.
pub proof fn lemma_patch_idempotent(m: Seq<LineModel>, ls: Seq<LeafModel>)
    requires
        distinct_paths(ls),
    ensures
        spec_patch(spec_patch(m, ls), ls) == spec_patch(m, ls),
{
    lemma_patch_settles_all(m, ls);
    lemma_patch_noop(spec_patch(m, ls), ls);
}

/// Completeness (missing keys are synthesized): after a patch with distinct
/// paths, every leaf with a plain key path resolves on disk to its canonical
/// value — whether it was present, replaced, or freshly inserted.
pub proof fn lemma_patch_completes(m: Seq<LineModel>, ls: Seq<LeafModel>)
    requires
        distinct_paths(ls),
    ensures
        forall|i: int|
            0 <= i < ls.len() && spec_all_keys((#[trigger] ls[i]).path) && ls[i].path.len() >= 1
                ==> leaf_up_to_date(spec_patch(m, ls), ls[i]),
{
    lemma_patch_settles_all(m, ls);
}

} // verus!
