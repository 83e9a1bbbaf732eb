use babel_nar::name_match::{
    contains, is_name_match, name_match, name_match_lowered, name_match_only_contains,
    name_match_only_contains_lowered,
};

#[test]
fn name_match_degrees() {
    assert_eq!(name_match("OpenNARS", "OpenNARS"), 6);
    assert_eq!(name_match("NARS", "OpenNARS 3.0.4"), 4);
    assert_eq!(name_match("OpenNARS 3.0.4", "NARS"), 2);
    assert_eq!(name_match("opennars", "OpenNARS"), 5);
    assert_eq!(name_match("opennars", "OpenNARS 3.0.4"), 3);
    assert_eq!(name_match("OpenNARS 3.0.4", "nars"), 1);
    assert_eq!(name_match("ona", "pynars"), 0);
}

#[test]
fn name_match_only_contains_degrees() {
    assert_eq!(name_match_only_contains("ONA", "ONA"), 4);
    assert_eq!(name_match_only_contains("ONA", "ONA.exe"), 2);
    assert_eq!(name_match_only_contains("ona", "ONA"), 3);
    assert_eq!(name_match_only_contains("ona", "NAR_ONA.exe"), 1);
    assert_eq!(name_match_only_contains("ONA.exe", "ONA"), 0);
}

#[test]
fn lowered_forms_are_used_as_given() {
    assert_eq!(name_match_lowered("A", "b", "x", "x"), 5);
    assert_eq!(name_match_lowered("A", "b", "x", "yxy"), 3);
    assert_eq!(name_match_only_contains_lowered("A", "b", "q", "r"), 0);
}

#[test]
fn is_name_match_examples() {
    assert!(is_name_match("opennars", "OpenNARS"));
    assert!(!is_name_match("cxin", "OpenNARS"));
}

#[test]
fn substring_search() {
    assert!(contains("abc", ""));
    assert!(contains("abc", "bc"));
    assert!(!contains("abc", "cb"));
    assert!(!contains("", "a"));
    assert!(contains("語言學", "言"));
}
