//! Glob matching on browse paths.

use opcua_tag_browser::glob_match;

#[test]
fn wildcards_match_any_run_and_any_one_character() {
    assert!(glob_match("Machine/*", "Machine/Axis1/Speed"));
    assert!(glob_match("*/Speed", "Machine/Axis1/Speed"));
    assert!(glob_match("Machine/Axis?/Speed", "Machine/Axis2/Speed"));
    assert!(!glob_match("Machine/Axis?/Speed", "Machine/Axis12/Speed"));
    assert!(glob_match("*", ""));
    assert!(glob_match("", ""));
    assert!(!glob_match("", "a"));
    assert!(glob_match("a**b", "axyzb"));
    assert!(!glob_match("a*b", "axyzc"));
}

#[test]
fn a_star_in_the_text_is_an_ordinary_character() {
    assert!(glob_match("*", "**"));
    assert!(glob_match("*", "*x"));
    assert!(glob_match("*a", "*ba"));
    assert!(glob_match("abc*", "abc"));
    assert!(glob_match("?", "é"));
    assert!(!glob_match("x*", "*x"));
}
