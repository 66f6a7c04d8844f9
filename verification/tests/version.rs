use fefix::Version;
use std::collections::HashSet;

#[test]
fn all_versions_have_quickfix_spec() {
    assert!(Version::all()
        .into_iter()
        .map(|version| version.get_quickfix_spec())
        .all(|spec| spec.len() > 0));
}

#[test]
fn all_versions_have_different_quickfix_spec() {
    let mut set: HashSet<String> = HashSet::default();
    Version::all()
        .into_iter()
        .map(|version| set.insert(version.get_quickfix_spec()))
        .count();
    assert_eq!(set.len(), Version::all().into_iter().count());
}

#[test]
fn all_versions_have_xml_valid_quickfix_spec() {
    assert!(Version::all()
        .into_iter()
        .map(|version| version.get_quickfix_spec())
        .all(|spec| roxmltree::Document::parse(spec.as_str()).is_ok()));
}

#[test]
fn there_are_nine_versions_in_ascending_order() {
    let all = Version::all();
    assert_eq!(all.len(), 9);
    assert_eq!(all[0], Version::Fix40);
    assert_eq!(all[4], Version::Fix44);
    assert_eq!(all[8], Version::Fixt11);
}

#[test]
fn version_names_use_hyphens() {
    assert_eq!(Version::Fix40.to_string(), "FIX-4.0");
    assert_eq!(Version::Fix44.as_str(), "FIX-4.4");
    assert_eq!(Version::Fix50SP1.to_string(), "FIX-5.0-SP1");
    assert_eq!(Version::Fix50SP2.to_string(), "FIX-5.0-SP2");
    assert_eq!(Version::Fixt11.to_string(), "FIXT-1.1");
}

#[test]
fn begin_strings_use_dots_and_differ() {
    assert_eq!(Version::Fix42.begin_string(), "FIX.4.2");
    assert_eq!(Version::Fixt11.begin_string(), "FIXT.1.1");
    assert!(Version::Fix42.has_begin_string("FIX.4.2"));
    assert!(!Version::Fix42.has_begin_string("FIX.4.4"));
    let all: HashSet<&str> = Version::all().iter().map(|v| v.begin_string()).collect();
    assert_eq!(all.len(), 9);
}

#[test]
fn quickfix_specs_open_with_the_root_element_of_their_version() {
    assert!(Version::Fix42
        .get_quickfix_spec()
        .starts_with("<fix type='FIX' major='4' minor='2' servicepack='0'>\n<header>"));
    assert!(Version::Fix50SP2
        .get_quickfix_spec()
        .starts_with("<fix type='FIX' major='5' minor='0' servicepack='2'>\n"));
    assert!(Version::Fixt11
        .get_quickfix_spec()
        .starts_with("<fix type='FIXT' major='1' minor='1' servicepack='0'>\n"));
    for version in Version::all() {
        let text = version.get_quickfix_spec();
        assert!(text.starts_with(version.opening()));
        assert!(text.len() > version.opening().len());
        assert!(text.trim_end().ends_with("</fix>"));
    }
}
