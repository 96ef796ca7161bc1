use flavours_find::layout::{
    config_candidate, config_templates_glob, data_candidate, data_templates_glob, scheme_glob,
};
use flavours_find::pattern::{classify_pattern, normalize_pattern, PatternShape};

#[test]
fn bare_pattern_is_kept() {
    assert_eq!(normalize_pattern("vim"), "vim");
    assert_eq!(normalize_pattern("*"), "*");
    assert_eq!(normalize_pattern("colors.mustache"), "colors.mustache");
    assert_eq!(normalize_pattern(""), "");
    assert_eq!(classify_pattern("vim"), PatternShape::NoSlash);
}

#[test]
fn shorthand_and_qualified_agree() {
    assert_eq!(normalize_pattern("family/sub"), "family/templates/sub.mustache");
    assert_eq!(normalize_pattern("family/templates/sub"), "family/templates/sub.mustache");
    assert_eq!(classify_pattern("family/sub"), PatternShape::ShorthandExpand);
    assert_eq!(classify_pattern("family/templates/sub"), PatternShape::AlreadyQualified);
}

#[test]
fn extension_is_not_doubled() {
    assert_eq!(normalize_pattern("family/sub.mustache"), "family/templates/sub.mustache");
    assert_eq!(
        normalize_pattern("family/templates/sub.mustache"),
        "family/templates/sub.mustache"
    );
    assert_eq!(normalize_pattern("vim/*"), "vim/templates/*.mustache");
}

#[test]
fn deeper_pattern_is_kept() {
    assert_eq!(normalize_pattern("family/extra/sub"), "family/extra/sub");
    assert_eq!(normalize_pattern("family/extra/sub.mustache"), "family/extra/sub.mustache");
    assert_eq!(classify_pattern("family/extra/sub"), PatternShape::RejectedShape);
}

#[test]
fn every_templates_segment_is_removed() {
    assert_eq!(
        normalize_pattern("family/templates/templates/x"),
        "family/templates/x.mustache"
    );
    assert_eq!(normalize_pattern("a/"), "a/templates/.mustache");
    assert_eq!(normalize_pattern("/x"), "/templates/x.mustache");
}

#[test]
fn globs_and_candidates_are_built() {
    assert_eq!(scheme_glob("*", "/cfg"), "/cfg/schemes/*/*.y*ml");
    assert_eq!(config_templates_glob("a/templates/b.mustache", "/cfg"), "/cfg/templates/a/templates/b.mustache");
    assert_eq!(data_templates_glob("vim", "/data"), "/data/base16/templates/vim");
    assert_eq!(
        config_candidate("foo", "colors", "/cfg"),
        "/cfg/templates/foo/templates/colors.mustache"
    );
    assert_eq!(
        data_candidate("foo", "colors", "/data"),
        "/data/base16/templates/foo/templates/colors.mustache"
    );
}
