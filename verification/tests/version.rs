use spm_git_swap::resolved::detect_version;

#[test]
fn version_one_is_found() {
    assert_eq!(detect_version("{\n  \"object\": {},\n  \"version\": 1\n}\n"), Some(1));
}

#[test]
fn version_two_is_found() {
    assert_eq!(detect_version("{\n  \"pins\" : [],\n  \"version\" : 2\n}"), Some(2));
}

#[test]
fn a_text_without_a_version_has_none() {
    assert_eq!(detect_version(""), None);
    assert_eq!(detect_version("\n\n\n"), None);
    assert_eq!(detect_version("{\n  \"pins\": []\n}\n"), None);
}

#[test]
fn a_long_text_without_a_version_has_none() {
    let mut text = String::from("{\n");
    for i in 0..2000 {
        text.push_str(&format!("  \"line{}\": {},\n", i, i));
    }
    text.push_str("}\n");
    assert_eq!(detect_version(&text), None);
}

#[test]
fn other_versions_are_not_found() {
    assert_eq!(detect_version("{\n  \"version\": 3\n}"), None);
    assert_eq!(detect_version("{\n  \"version\": 12\n}"), None);
    assert_eq!(detect_version("{\n  \"version\": 0\n}"), None);
}

#[test]
fn the_last_line_that_names_a_version_decides() {
    assert_eq!(detect_version("\"version\": 1\n\"version\": 2\n"), Some(2));
    assert_eq!(detect_version("\"version\": 2\n\"version\": 1\n"), Some(1));
    assert_eq!(detect_version("\"version\": 2\n\"version\": 7\n"), Some(2));
}

#[test]
fn a_version_on_the_line_of_another_member_is_not_found() {
    assert_eq!(detect_version("{ \"pins\": [], \"version\": 2 }"), None);
}

#[test]
fn the_version_of_a_state_counts_where_it_stands_alone() {
    let text = "{\n  \"state\": {\n    \"version\": \"2\"\n  }\n}";
    assert_eq!(detect_version(text), Some(2));
}

#[test]
fn carriage_returns_do_not_count() {
    assert_eq!(detect_version("{\r\n  \"version\": 1\r\n}\r\n"), Some(1));
}

#[test]
fn punctuation_and_blanks_do_not_count() {
    assert_eq!(detect_version("\t \"version\" :   2 ,"), Some(2));
    assert_eq!(detect_version("version:1"), Some(1));
}

#[test]
fn letters_beyond_ascii_count() {
    assert_eq!(detect_version("\"version\": 1 é"), None);
    assert_eq!(detect_version("\"version\": 1 ٣"), None);
    assert_eq!(detect_version("\"version\": 1 «»"), Some(1));
}

#[test]
fn capitals_are_other_letters() {
    assert_eq!(detect_version("\"Version\": 1"), None);
}
