use vstd::prelude::*;

verus! {

/// The glob that lists the schemes named by `pattern`:
/// `<config_root>/schemes/*/<pattern>.y*ml`, which takes `.yml` and `.yaml`.
pub open spec fn scheme_glob_text(pattern: Seq<char>, config_root: Seq<char>) -> Seq<char> {
    config_root + "/schemes/*/"@ + pattern + ".y*ml"@
}

/// The glob under the config root for an already normalized template pattern:
/// `<config_root>/templates/<pattern>`.
pub open spec fn config_templates_glob_text(pattern: Seq<char>, config_root: Seq<char>) -> Seq<char> {
    config_root + "/templates/"@ + pattern
}

/// The glob under the data root for an already normalized template pattern:
/// `<data_root>/base16/templates/<pattern>`.
pub open spec fn data_templates_glob_text(pattern: Seq<char>, data_root: Seq<char>) -> Seq<char> {
    data_root + "/base16/templates/"@ + pattern
}

/// `<family>/templates/<subtemplate>.mustache`.
pub open spec fn template_file_text(family: Seq<char>, subtemplate: Seq<char>) -> Seq<char> {
    family + "/templates/"@ + subtemplate + ".mustache"@
}

/// The file that the config root may hold for a template:
/// `<config_root>/templates/<family>/templates/<subtemplate>.mustache`.
pub open spec fn config_candidate_text(
    family: Seq<char>,
    subtemplate: Seq<char>,
    config_root: Seq<char>,
) -> Seq<char> {
    config_templates_glob_text(template_file_text(family, subtemplate), config_root)
}

/// The file that the data root may hold for a template:
/// `<data_root>/base16/templates/<family>/templates/<subtemplate>.mustache`.
pub open spec fn data_candidate_text(
    family: Seq<char>,
    subtemplate: Seq<char>,
    data_root: Seq<char>,
) -> Seq<char> {
    data_templates_glob_text(template_file_text(family, subtemplate), data_root)
}

/// Builds the glob that lists the schemes named by `pattern`.
pub fn scheme_glob(pattern: &str, config_root: &str) -> (r: String)
    ensures
        r@ == scheme_glob_text(pattern@, config_root@),
{
    let mut r = String::from_str(config_root);
    r.append("/schemes/*/");
    r.append(pattern);
    r.append(".y*ml");
    r
}

/// Builds the glob under the config root for a normalized template pattern.
pub fn config_templates_glob(pattern: &str, config_root: &str) -> (r: String)
    ensures
        r@ == config_templates_glob_text(pattern@, config_root@),
{
    let mut r = String::from_str(config_root);
    r.append("/templates/");
    r.append(pattern);
    r
}

/// Builds the glob under the data root for a normalized template pattern.
pub fn data_templates_glob(pattern: &str, data_root: &str) -> (r: String)
    ensures
        r@ == data_templates_glob_text(pattern@, data_root@),
{
    let mut r = String::from_str(data_root);
    r.append("/base16/templates/");
    r.append(pattern);
    r
}

fn template_file(family: &str, subtemplate: &str) -> (r: String)
    ensures
        r@ == template_file_text(family@, subtemplate@),
{
    let mut r = String::from_str(family);
    r.append("/templates/");
    r.append(subtemplate);
    r.append(".mustache");
    r
}

/// Builds the path of the config root's file for a template.
pub fn config_candidate(family: &str, subtemplate: &str, config_root: &str) -> (r: String)
    ensures
        r@ == config_candidate_text(family@, subtemplate@, config_root@),
{
    let file = template_file(family, subtemplate);
    config_templates_glob(file.as_str(), config_root)
}

/// Builds the path of the data root's file for a template.
pub fn data_candidate(family: &str, subtemplate: &str, data_root: &str) -> (r: String)
    ensures
        r@ == data_candidate_text(family@, subtemplate@, data_root@),
{
    let file = template_file(family, subtemplate);
    data_templates_glob(file.as_str(), data_root)
}

} // verus!
