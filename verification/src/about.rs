use vstd::prelude::*;
use crate::document::leaves::occ;
use crate::document::parse::{spec_parse, spec_parse_ok};
use crate::document::patch::spec_lookup;
use crate::document::{DiskDocument, LineModel, PathSeg, ScalarModel, SegModel, TomlValue};
use vstd::string::StringExecFns;

verus! {

/// What the about widget shows of the application.
pub struct AboutApplicationInfo {
    pub name: String,
    pub description: String,
    pub license: String,
    pub version: String,
    pub authors: Vec<AboutAuthorInfo>,
    pub webpage: String,
    pub git_repo: String,
    pub copyright: String,
}

/// One author credited in the about widget.
pub struct AboutAuthorInfo {
    pub name: String,
    pub github: String,
    pub email: Option<String>,
}

/// How many `[[authors]]` sections the document holds.
pub open spec fn spec_author_count(m: Seq<LineModel>) -> int {
    occ(m, m.len() as int, seq!["authors"@])
}

/// The field of the `i`-th author.
pub open spec fn spec_author_field(m: Seq<LineModel>, i: int, name: Seq<char>) -> Option<
    ScalarModel,
> {
    spec_lookup(m, seq![SegModel::Key("authors"@), SegModel::Idx(i), SegModel::Key(name)])
}

/// The authors file is well-formed: every `[[authors]]` section carries a
/// string name and github handle, and its email, when present, is a string.
pub open spec fn spec_authors_ok(m: Seq<LineModel>) -> bool {
    forall|i: int|
        0 <= i < spec_author_count(m) ==> ((#[trigger] spec_author_field(m, i, "name"@))
            matches Some(ScalarModel::Str(_)) && spec_author_field(m, i, "github"@) matches Some(
            ScalarModel::Str(_),
        ) && match spec_author_field(m, i, "email"@) {
            None => true,
            Some(v) => v is Str,
        })
}

fn author_path(i: usize, name: &str) -> (r: Vec<PathSeg>)
    ensures
        crate::document::path_model(r@) == seq![
            SegModel::Key("authors"@),
            SegModel::Idx(i as int),
            SegModel::Key(name@),
        ],
{
    let mut r: Vec<PathSeg> = Vec::new();
    r.push(PathSeg::Key(String::from_str("authors")));
    r.push(PathSeg::Idx(i));
    r.push(PathSeg::Key(String::from_str(name)));
    proof {
        assert(crate::document::path_model(r@) =~= seq![
            SegModel::Key("authors"@),
            SegModel::Idx(i as int),
            SegModel::Key(name@),
        ]);
    }
    r
}

/// Reads the credited authors out of a bundled `authors.toml` text: one
/// entry per `[[authors]]` section, in order, with its name, github handle
/// and optional email.  The text is bundled by the application, so it is
/// required to be well-formed rather than re-checked at runtime.
pub fn authors_toml_to_about_authors(authors_toml: &String) -> (r: Vec<AboutAuthorInfo>)
    requires
        spec_parse_ok(authors_toml@),
        spec_authors_ok(spec_parse(authors_toml@)),
    ensures
        r@.len() == spec_author_count(spec_parse(authors_toml@)),
        forall|i: int|
            0 <= i < r@.len() ==> {
                let m = spec_parse(authors_toml@);
                &&& spec_author_field(m, i, "name"@) == Some(
                    ScalarModel::Str((#[trigger] r@[i]).name@),
                )
                &&& spec_author_field(m, i, "github"@) == Some(ScalarModel::Str(r@[i].github@))
                &&& match r@[i].email {
                    Some(e) => spec_author_field(m, i, "email"@) == Some(ScalarModel::Str(e@)),
                    None => spec_author_field(m, i, "email"@) is None,
                }
            },
{
    let ghost m = spec_parse(authors_toml@);
    let doc = match DiskDocument::parse(authors_toml.as_str()) {
        Ok(d) => d,
        Err(_) => {
            proof {
                assert(false);
            }
            return Vec::new();
        },
    };
    let mut hpath: Vec<String> = Vec::new();
    hpath.push(String::from_str("authors"));
    proof {
        assert(crate::document::strings_model(hpath@) =~= seq!["authors"@]);
    }
    let count = crate::document::leaves::count_array_headers(
        &doc.lines,
        doc.lines.len(),
        &hpath,
    );
    let mut authors: Vec<AboutAuthorInfo> = Vec::new();
    let mut i: usize = 0;
    while i < count
        invariant
            m == spec_parse(authors_toml@),
            doc.model() == m,
            spec_authors_ok(m),
            count as int == spec_author_count(m),
            i <= count,
            authors@.len() == i,
            forall|k: int|
                0 <= k < i ==> {
                    &&& spec_author_field(m, k, "name"@) == Some(
                        ScalarModel::Str((#[trigger] authors@[k]).name@),
                    )
                    &&& spec_author_field(m, k, "github"@) == Some(
                        ScalarModel::Str(authors@[k].github@),
                    )
                    &&& match authors@[k].email {
                        Some(e) => spec_author_field(m, k, "email"@) == Some(
                            ScalarModel::Str(e@),
                        ),
                        None => spec_author_field(m, k, "email"@) is None,
                    }
                },
        decreases count - i,
    {
        proof {
            assert(spec_author_field(m, i as int, "name"@) matches Some(ScalarModel::Str(_)));
            assert(spec_author_field(m, i as int, "name"@) == spec_lookup(
                m,
                seq![
                    SegModel::Key("authors"@),
                    SegModel::Idx(i as int),
                    SegModel::Key("name"@),
                ],
            ));
            assert(spec_author_field(m, i as int, "github"@) == spec_lookup(
                m,
                seq![
                    SegModel::Key("authors"@),
                    SegModel::Idx(i as int),
                    SegModel::Key("github"@),
                ],
            ));
            assert(spec_author_field(m, i as int, "email"@) == spec_lookup(
                m,
                seq![
                    SegModel::Key("authors"@),
                    SegModel::Idx(i as int),
                    SegModel::Key("email"@),
                ],
            ));
        }
        let name = match doc.lookup(&author_path(i, "name")) {
            Some(TomlValue::Str(s)) => s.clone(),
            _ => {
                proof {
                    assert(false);
                }
                String::new()
            },
        };
        let github = match doc.lookup(&author_path(i, "github")) {
            Some(TomlValue::Str(s)) => s.clone(),
            _ => {
                proof {
                    assert(false);
                }
                String::new()
            },
        };
        let email = match doc.lookup(&author_path(i, "email")) {
            Some(TomlValue::Str(s)) => Some(s.clone()),
            Some(_) => {
                proof {
                    assert(false);
                }
                None
            },
            None => None,
        };
        authors.push(AboutAuthorInfo { name, github, email });
        i = i + 1;
    }
    authors
}

} // verus!
