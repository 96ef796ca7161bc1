use vstd::prelude::*;

use std::path::PathBuf;

use crate::layout::{
    config_candidate, config_candidate_text, config_templates_glob, data_candidate,
    data_candidate_text, data_templates_glob, scheme_glob,
};
use crate::pattern::normalize_pattern;

verus! {

#[verifier::external_type_specification]
#[verifier::external_body]
pub struct ExPathBuf(std::path::PathBuf);

#[verifier::external_type_specification]
#[verifier::external_body]
pub struct ExGlobError(glob::GlobError);

#[verifier::external_type_specification]
#[verifier::external_body]
pub struct ExPatternError(glob::PatternError);

/// Why a lookup failed.
#[derive(Debug)]
pub enum FindError {
    /// The glob built from the caller's pattern does not compile.
    GlobSyntax(glob::PatternError),
    /// An entry that the glob matched could not be read.
    EntryAccess(glob::GlobError),
    /// Neither file of a template exists; both attempted paths are named.
    NotFound { config_candidate: String, data_candidate: String },
}

/// One entry of a glob expansion: a matched path, or the error met reading it.
pub type Entry = Result<PathBuf, glob::GlobError>;

/// The paths of an expansion's entries in order, or the first error among them.
pub open spec fn expansion(entries: Seq<Entry>) -> Result<Seq<PathBuf>, glob::GlobError>
    decreases entries.len(),
{
    if entries.len() == 0 {
        Ok(Seq::empty())
    } else {
        match entries[0] {
            Err(e) => Err(e),
            Ok(p) => match expansion(entries.drop_first()) {
                Ok(ps) => Ok(seq![p] + ps),
                Err(e) => Err(e),
            },
        }
    }
}

/// `found` followed by the outcome of an expansion.
pub open spec fn after(found: Seq<PathBuf>, rest: Result<Seq<PathBuf>, glob::GlobError>) -> Result<
    Seq<PathBuf>,
    glob::GlobError,
> {
    match rest {
        Ok(ps) => Ok(found + ps),
        Err(e) => Err(e),
    }
}

/// Relies on glob::glob: it compiles `pattern` or returns its `PatternError`,
/// and its `Paths` iterator yields the matching entries of the file system.
/// What it yields depends on the disk, so nothing is stated of it.
#[verifier::external_body]
fn glob_entries(pattern: &str) -> (r: Result<Vec<Entry>, glob::PatternError>) {
    glob::glob(pattern).map(|paths| paths.collect())
}

/// Relies on std::path::Path::is_file: whether `path` names an existing
/// regular file right now. That depends on the disk, so nothing is stated of it.
#[verifier::external_body]
fn is_regular_file(path: &str) -> (r: bool) {
    std::path::Path::new(path).is_file()
}

/// Keeps the paths of a glob expansion in order; the first entry that could
/// not be read fails the whole expansion.
pub fn collect_entries(entries: Vec<Entry>) -> (r: Result<Vec<PathBuf>, FindError>)
    ensures
        match expansion(entries@) {
            Ok(ps) => r is Ok && r->Ok_0@ == ps,
            Err(e) => r is Err && r->Err_0 == FindError::EntryAccess(e),
        },
{
    let ghost all = entries@;
    let mut rest = entries;
    let mut found: Vec<PathBuf> = Vec::new();
    let mut failure: Option<glob::GlobError> = None;
    while rest.len() > 0 && failure.is_none()
        invariant
            failure is None ==> expansion(all) == after(found@, expansion(rest@)),
            failure is Some ==> expansion(all) == Err::<Seq<PathBuf>, glob::GlobError>(
                failure->0,
            ),
        decreases rest@.len(),
    {
        let ghost before = rest@;
        let entry = rest.remove(0);
        assert(rest@ =~= before.drop_first());
        match entry {
            Ok(p) => {
                let ghost f = found@;
                found.push(p);
                proof {
                    match expansion(rest@) {
                        Ok(ps) => {
                            assert(f + (seq![p] + ps) =~= found@ + ps);
                        },
                        Err(e) => {},
                    }
                }
            },
            Err(e) => {
                assert(expansion(before) == Err::<Seq<PathBuf>, glob::GlobError>(e));
                failure = Some(e);
            },
        }
    }
    match failure {
        Some(e) => Err(FindError::EntryAccess(e)),
        None => {
            assert(found@ + Seq::<PathBuf>::empty() =~= found@);
            Ok(found)
        },
    }
}

/// The matches of the first root followed by those of the second, with
/// nothing merged or dropped.
pub fn concat_matches(first: Vec<PathBuf>, second: Vec<PathBuf>) -> (r: Vec<PathBuf>)
    ensures
        r@ == first@ + second@,
{
    let mut r = first;
    let mut s = second;
    r.append(&mut s);
    r
}

/// Expands one glob against the file system.
fn expand(glob_text: &str) -> (r: Result<Vec<PathBuf>, FindError>)
    ensures
        r is Err ==> !(r->Err_0 is NotFound),
{
    match glob_entries(glob_text) {
        Err(e) => Err(FindError::GlobSyntax(e)),
        Ok(entries) => collect_entries(entries),
    }
}

/// Lists the scheme files under `<config_root>/schemes/*/` whose name without
/// `.yml` or `.yaml` matches `pattern`, in the order of the glob.
pub fn find_schemes(pattern: &str, config_root: &str) -> (r: Result<Vec<PathBuf>, FindError>)
    ensures
        r is Err ==> !(r->Err_0 is NotFound),
{
    let g = scheme_glob(pattern, config_root);
    expand(g.as_str())
}

/// Lists the template files that `pattern`, once normalized, matches under the
/// config root and then under the data root, without merging duplicates.
pub fn find_templates(pattern: &str, data_root: &str, config_root: &str) -> (r: Result<
    Vec<PathBuf>,
    FindError,
>)
    ensures
        r is Err ==> !(r->Err_0 is NotFound),
{
    let normal = normalize_pattern(pattern);
    let config_glob = config_templates_glob(normal.as_str(), config_root);
    let data_glob = data_templates_glob(normal.as_str(), data_root);
    let from_config = match expand(config_glob.as_str()) {
        Ok(v) => v,
        Err(e) => return Err(e),
    };
    let from_data = match expand(data_glob.as_str()) {
        Ok(v) => v,
        Err(e) => return Err(e),
    };
    Ok(concat_matches(from_config, from_data))
}

/// Picks a template's file: the config root's if it exists, else the data
/// root's if it exists, else an error naming both.
pub fn pick_template(
    config_candidate: String,
    config_exists: bool,
    data_candidate: String,
    data_exists: bool,
) -> (r: Result<String, FindError>)
    ensures
        config_exists ==> r is Ok && r->Ok_0@ == config_candidate@,
        !config_exists && data_exists ==> r is Ok && r->Ok_0@ == data_candidate@,
        !config_exists && !data_exists ==> r is Err && r->Err_0 is NotFound
            && r->Err_0->config_candidate@ == config_candidate@
            && r->Err_0->data_candidate@ == data_candidate@,
{
    if config_exists {
        Ok(config_candidate)
    } else if data_exists {
        Ok(data_candidate)
    } else {
        Err(FindError::NotFound { config_candidate, data_candidate })
    }
}

/// Resolves one template to a single file, preferring the config root; the
/// data root's file is looked at only when the config root has none.
pub fn find_template(family: &str, subtemplate: &str, data_root: &str, config_root: &str) -> (r:
    Result<String, FindError>)
    ensures
        r is Ok ==> r->Ok_0@ == config_candidate_text(family@, subtemplate@, config_root@)
            || r->Ok_0@ == data_candidate_text(family@, subtemplate@, data_root@),
        r is Err ==> r->Err_0 is NotFound && r->Err_0->config_candidate@ == config_candidate_text(
            family@,
            subtemplate@,
            config_root@,
        ) && r->Err_0->data_candidate@ == data_candidate_text(family@, subtemplate@, data_root@),
{
    let in_config = config_candidate(family, subtemplate, config_root);
    let in_data = data_candidate(family, subtemplate, data_root);
    if is_regular_file(in_config.as_str()) {
        pick_template(in_config, true, in_data, false)
    } else {
        let data_exists = is_regular_file(in_data.as_str());
        pick_template(in_config, false, in_data, data_exists)
    }
}

} // verus!
