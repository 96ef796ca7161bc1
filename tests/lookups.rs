use std::path::PathBuf;

use flavours_find::find::{
    concat_matches, find_schemes, find_template, find_templates, pick_template, FindError,
};

const CONFIG: &str = "/nonexistent/flavours_find/config";
const DATA: &str = "/nonexistent/flavours_find/data";

#[test]
fn missing_template_names_both_paths() {
    match find_template("foo", "missing", DATA, CONFIG) {
        Err(FindError::NotFound { config_candidate, data_candidate }) => {
            assert_eq!(
                config_candidate,
                "/nonexistent/flavours_find/config/templates/foo/templates/missing.mustache"
            );
            assert_eq!(
                data_candidate,
                "/nonexistent/flavours_find/data/base16/templates/foo/templates/missing.mustache"
            );
        }
        other => panic!("expected NotFound, got {:?}", other),
    }
}

#[test]
fn empty_roots_give_no_matches() {
    assert_eq!(find_schemes("*", CONFIG).unwrap(), Vec::<PathBuf>::new());
    assert_eq!(find_templates("foo/colors", DATA, CONFIG).unwrap(), Vec::<PathBuf>::new());
    assert_eq!(find_templates("*", DATA, CONFIG).unwrap(), Vec::<PathBuf>::new());
}

#[test]
fn bad_glob_is_a_syntax_error() {
    assert!(matches!(find_schemes("[", CONFIG), Err(FindError::GlobSyntax(_))));
    assert!(matches!(find_templates("***", DATA, CONFIG), Err(FindError::GlobSyntax(_))));
    assert!(matches!(find_templates("a/***", DATA, CONFIG), Err(FindError::GlobSyntax(_))));
}

#[test]
fn pick_prefers_config() {
    let r = pick_template("c".to_string(), true, "d".to_string(), true).unwrap();
    assert_eq!(r, "c");
    let r = pick_template("c".to_string(), false, "d".to_string(), true).unwrap();
    assert_eq!(r, "d");
    match pick_template("c".to_string(), false, "d".to_string(), false) {
        Err(FindError::NotFound { config_candidate, data_candidate }) => {
            assert_eq!(config_candidate, "c");
            assert_eq!(data_candidate, "d");
        }
        other => panic!("expected NotFound, got {:?}", other),
    }
}

#[test]
fn concat_keeps_duplicates() {
    let a = PathBuf::from("/x/foo/templates/colors.mustache");
    let r = concat_matches(vec![a.clone()], vec![a.clone(), PathBuf::from("/y")]);
    assert_eq!(r, vec![a.clone(), a, PathBuf::from("/y")]);
}
