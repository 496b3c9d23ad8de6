use spm_git_swap::json::Json;
use spm_git_swap::resolved::v1;
use spm_git_swap::resolved::v2::{Kind, Pin, Resolved, State};
use spm_git_swap::resolved::{parse, parse_all_recursive, DecodeError, LockFile, ResolvedError};

const V2: &str = r#"{
  "pins" : [
    {
      "identity" : "swift-log",
      "kind" : "remoteSourceControl",
      "location" : "https://github.com/apple/swift-log",
      "state" : {
        "revision" : "32e8d724467f8fe623624570367e3d50c5638e46",
        "version" : "1.5.2"
      }
    },
    {
      "identity" : "local-tools",
      "kind" : "localSourceControl",
      "location" : "/Users/me/tools",
      "state" : {
        "revision" : "0123456789abcdef"
      }
    },
    {
      "identity" : "blob",
      "kind" : "binaryTarget",
      "location" : "https://example.com/blob.zip",
      "state" : {
        "revision" : "ffff",
        "version" : null
      }
    }
  ],
  "version" : 2
}
"#;

const V1: &str = r#"{
  "object": {
    "pins": [
      {
        "package": "Alamofire",
        "repositoryURL": "https://github.com/Alamofire/Alamofire.git",
        "state": {
          "branch": null,
          "revision": "f96b619bcb2383b43d898402283924b80e2c4bae",
          "version": "5.4.3"
        }
      },
      {
        "package": "Tip",
        "repositoryURL": "https://example.org/tip.git",
        "state": {
          "branch": "main",
          "revision": "abcdef",
          "version": null
        }
      }
    ]
  },
  "version": 1
}
"#;

fn pin(identity: &str, kind: Kind, location: &str, revision: &str, version: Option<&str>) -> Pin {
    Pin {
        identity: String::from(identity),
        kind,
        location: String::from(location),
        state: State { revision: String::from(revision), version: version.map(String::from) },
    }
}

fn file(path: &str, contents: &str) -> Result<LockFile, ResolvedError> {
    Ok(LockFile { path: String::from(path), contents: String::from(contents) })
}

fn one_pin(identity: &str, location: &str, revision: &str) -> String {
    format!(
        "{{\n  \"pins\": [{{\"identity\": \"{}\", \"kind\": \"remoteSourceControl\", \"location\": \"{}\", \"state\": {{\"revision\": \"{}\"}}}}],\n  \"version\": 2\n}}\n",
        identity, location, revision
    )
}

fn text(value: &str) -> Json {
    Json::Text(String::from(value))
}

fn object(members: Vec<(&str, Json)>) -> Json {
    Json::Object(members.into_iter().map(|(name, value)| (String::from(name), value)).collect())
}

#[test]
fn a_version_two_file_is_read_as_it_stands() {
    let resolved = parse("Package.resolved", V2).expect("the file is a lock file");
    assert_eq!(resolved.version, 2);
    assert_eq!(
        resolved.pins,
        vec![
            pin(
                "swift-log",
                Kind::RemoteSourceControl,
                "https://github.com/apple/swift-log",
                "32e8d724467f8fe623624570367e3d50c5638e46",
                Some("1.5.2"),
            ),
            pin("local-tools", Kind::LocalSourceControl, "/Users/me/tools", "0123456789abcdef", None),
            pin("blob", Kind::BinaryTarget, "https://example.com/blob.zip", "ffff", None),
        ]
    );
}

#[test]
fn a_version_one_file_is_read_into_the_current_schema() {
    let resolved = parse("Package.resolved", V1).expect("the file is a lock file");
    assert_eq!(resolved.version, 2);
    assert_eq!(
        resolved.pins,
        vec![
            pin(
                "Alamofire",
                Kind::RemoteSourceControl,
                "https://github.com/Alamofire/Alamofire.git",
                "f96b619bcb2383b43d898402283924b80e2c4bae",
                Some("5.4.3"),
            ),
            pin("Tip", Kind::RemoteSourceControl, "https://example.org/tip.git", "abcdef", None),
        ]
    );
}

#[test]
fn normalizing_keeps_the_fields_and_drops_the_branch() {
    let old = v1::Resolved {
        object: v1::Object {
            pins: vec![v1::Pin {
                package: String::from("Tip"),
                repositoryURL: String::from("https://example.org/tip.git"),
                state: v1::State {
                    branch: Some(String::from("main")),
                    revision: String::from("abcdef"),
                    version: Some(String::from("1.0.0")),
                },
            }],
        },
    };
    let new: Resolved = old.into();
    assert_eq!(new.version, 2);
    assert_eq!(
        new.pins,
        vec![pin(
            "Tip",
            Kind::RemoteSourceControl,
            "https://example.org/tip.git",
            "abcdef",
            Some("1.0.0"),
        )]
    );
}

#[test]
fn normalizing_no_pins_gives_no_pins() {
    let new: Resolved = v1::Resolved { object: v1::Object { pins: vec![] } }.into();
    assert_eq!(new.version, 2);
    assert!(new.pins.is_empty());
}

#[test]
fn a_file_without_a_version_line_is_refused_with_its_path() {
    let result = parse("a/Package.resolved", "{\"pins\": [], \"version\": 2}");
    assert!(
        matches!(&result, Err(ResolvedError::VersionNotFound(path)) if path == "a/Package.resolved")
    );
}

#[test]
fn the_version_is_looked_for_before_the_text_is_decoded() {
    let result = parse("p", "this is no JSON");
    assert!(matches!(&result, Err(ResolvedError::VersionNotFound(path)) if path == "p"));
}

#[test]
fn a_file_that_is_no_json_is_refused() {
    let result = parse("p", "{\n  \"pins\": [,\n  \"version\": 2\n}");
    assert!(matches!(result, Err(ResolvedError::Serde(DecodeError::Syntax(_)))));
}

#[test]
fn a_file_of_another_shape_is_refused() {
    let missing_pins = "{\n  \"version\": 2\n}";
    assert!(matches!(
        parse("p", missing_pins),
        Err(ResolvedError::Serde(DecodeError::Schema))
    ));
    let version_one_shape_under_version_two = V1.replace("\"version\": 1", "\"version\": 2");
    assert!(matches!(
        parse("p", &version_one_shape_under_version_two),
        Err(ResolvedError::Serde(DecodeError::Schema))
    ));
    let version_two_shape_under_version_one = V2.replace("\"version\" : 2", "\"version\" : 1");
    assert!(matches!(
        parse("p", &version_two_shape_under_version_one),
        Err(ResolvedError::Serde(DecodeError::Schema))
    ));
}

#[test]
fn each_field_of_a_pin_is_asked_for() {
    let whole = || {
        vec![
            ("identity", text("a")),
            ("kind", text("remoteSourceControl")),
            ("location", text("l")),
            ("state", object(vec![("revision", text("r"))])),
        ]
    };
    assert_eq!(
        Pin::decode(&object(whole())),
        Some(pin("a", Kind::RemoteSourceControl, "l", "r", None))
    );
    for dropped in 0..4 {
        let mut members = whole();
        members.remove(dropped);
        assert_eq!(Pin::decode(&object(members)), None);
    }
    let mut members = whole();
    members[1] = ("kind", text("RemoteSourceControl"));
    assert_eq!(Pin::decode(&object(members)), None);
    let mut members = whole();
    members[0] = ("identity", Json::Number(Some(1)));
    assert_eq!(Pin::decode(&object(members)), None);
    let mut members = whole();
    members[3] = ("state", object(vec![("revision", text("r")), ("version", Json::Bool(true))]));
    assert_eq!(Pin::decode(&object(members)), None);
    assert_eq!(Pin::decode(&Json::List(vec![])), None);
}

#[test]
fn members_that_the_schema_does_not_know_are_passed_over() {
    let tree = object(vec![
        ("identity", text("a")),
        ("kind", text("binaryTarget")),
        ("location", text("l")),
        ("state", object(vec![("revision", text("r")), ("branch", text("main"))])),
        ("comment", Json::Null),
    ]);
    assert_eq!(Pin::decode(&tree), Some(pin("a", Kind::BinaryTarget, "l", "r", None)));
}

#[test]
fn the_kinds_have_these_names() {
    assert_eq!(Kind::named("remoteSourceControl"), Some(Kind::RemoteSourceControl));
    assert_eq!(Kind::named("localSourceControl"), Some(Kind::LocalSourceControl));
    assert_eq!(Kind::named("binaryTarget"), Some(Kind::BinaryTarget));
    assert_eq!(Kind::named("registry"), None);
    assert_eq!(Kind::named(""), None);
}

#[test]
fn the_version_of_a_document_is_two() {
    let with = |version: Json| object(vec![("pins", Json::List(vec![])), ("version", version)]);
    assert_eq!(Resolved::decode(&with(Json::Number(Some(2)))).map(|r| r.version), Some(2));
    assert!(Resolved::decode(&with(Json::Number(Some(0)))).is_none());
    assert!(Resolved::decode(&with(Json::Number(Some(1)))).is_none());
    assert!(Resolved::decode(&with(Json::Number(Some(3)))).is_none());
    assert!(Resolved::decode(&with(Json::Number(Some(7)))).is_none());
    assert!(Resolved::decode(&with(Json::Number(Some(255)))).is_none());
    assert!(Resolved::decode(&with(Json::Number(Some(256)))).is_none());
    assert!(Resolved::decode(&with(Json::Number(None))).is_none());
    assert!(Resolved::decode(&with(text("2"))).is_none());
    assert!(Resolved::decode(&with(Json::Null)).is_none());
    assert!(Resolved::decode(&object(vec![("pins", Json::List(vec![]))])).is_none());
}

#[test]
fn a_document_under_another_version_is_refused_though_a_line_names_two() {
    let nested = "{\n  \"version\": 7,\n  \"pins\": [\n    {\n      \"identity\": \"a\",\n      \"kind\": \"remoteSourceControl\",\n      \"location\": \"l\",\n      \"state\": {\n        \"revision\": \"r\",\n        \"version\": \"2\"\n      }\n    }\n  ]\n}\n";
    assert_eq!(spm_git_swap::resolved::detect_version(nested), Some(2));
    assert!(matches!(parse("p", nested), Err(ResolvedError::Serde(DecodeError::Schema))));
    let fractional = "{\n  \"pins\": [],\n  \"version\": 2.0\n}";
    assert!(matches!(parse("p", fractional), Err(ResolvedError::VersionNotFound(_))));
    let fractional_above_a_line_that_names_two =
        "{\n  \"pins\": [],\n  \"version\": 2.0,\n  \"note\": {\n    \"version\": 2\n  }\n}";
    assert!(matches!(
        parse("p", fractional_above_a_line_that_names_two),
        Err(ResolvedError::Serde(DecodeError::Schema))
    ));
}

#[test]
fn what_is_read_is_of_version_two_whatever_the_text_was_in() {
    assert_eq!(parse("p", V1).expect("a lock file").version, 2);
    assert_eq!(parse("p", V2).expect("a lock file").version, 2);
    let read = parse("p", V1).expect("a lock file");
    assert_eq!(read.pins.len(), 2);
    assert!(read.pins.iter().all(|pin| pin.kind == Kind::RemoteSourceControl));
}

#[test]
fn a_version_one_branch_must_be_a_text_where_it_is_there() {
    let state = |branch: Json| object(vec![("branch", branch), ("revision", text("r"))]);
    assert!(v1::State::decode(&state(text("main"))).is_some());
    assert!(v1::State::decode(&state(Json::Null)).is_some());
    assert!(v1::State::decode(&state(Json::Number(Some(1)))).is_none());
    assert!(v1::State::decode(&object(vec![("revision", text("r"))])).is_some());
    assert!(v1::State::decode(&object(vec![("branch", text("main"))])).is_none());
}

#[test]
fn two_files_with_one_location_give_one_pin() {
    let first = one_pin("log", "https://github.com/apple/swift-log", "1111");
    let second = one_pin("logging", "https://github.com/apple/swift-log", "2222");
    let pins = parse_all_recursive(vec![file("a/Package.resolved", &first), file("b/Package.resolved", &second)])
        .expect("both files are lock files");
    assert_eq!(
        pins,
        vec![pin(
            "logging",
            Kind::RemoteSourceControl,
            "https://github.com/apple/swift-log",
            "2222",
            None,
        )]
    );
}

#[test]
fn pins_come_in_the_order_in_which_their_locations_first_occur() {
    let a = one_pin("a", "la", "1");
    let b = one_pin("b", "lb", "2");
    let again = one_pin("a2", "la", "3");
    let c = one_pin("c", "lc", "4");
    let pins = parse_all_recursive(vec![file("1", &a), file("2", &b), file("3", &again), file("4", &c)])
        .expect("the files are lock files");
    assert_eq!(
        pins,
        vec![
            pin("a2", Kind::RemoteSourceControl, "la", "3", None),
            pin("b", Kind::RemoteSourceControl, "lb", "2", None),
            pin("c", Kind::RemoteSourceControl, "lc", "4", None),
        ]
    );
}

#[test]
fn one_location_twice_in_one_file_gives_one_pin() {
    let text = "{\n\"pins\": [\n{\"identity\": \"a\", \"kind\": \"remoteSourceControl\", \"location\": \"l\", \"state\": {\"revision\": \"1\"}},\n{\"identity\": \"b\", \"kind\": \"binaryTarget\", \"location\": \"l\", \"state\": {\"revision\": \"2\"}}\n],\n\"version\": 2\n}";
    let pins = parse_all_recursive(vec![file("p", text)]).expect("the file is a lock file");
    assert_eq!(pins, vec![pin("b", Kind::BinaryTarget, "l", "2", None)]);
}

#[test]
fn no_files_give_no_pins() {
    assert_eq!(parse_all_recursive(vec![]).expect("nothing can fail"), vec![]);
}

#[test]
fn files_of_both_versions_are_merged() {
    let pins = parse_all_recursive(vec![file("1", V1), file("2", V2)]).expect("lock files");
    assert_eq!(pins.len(), 5);
    assert_eq!(pins[0].identity, "Alamofire");
    assert_eq!(pins[4].identity, "blob");
}

#[test]
fn the_first_entry_that_fails_ends_the_work() {
    let good = one_pin("a", "la", "1");
    let result = parse_all_recursive(vec![
        file("1", &good),
        Err(ResolvedError::Io(String::from("permission denied"))),
        file("3", "no version here"),
    ]);
    assert!(matches!(&result, Err(ResolvedError::Io(why)) if why == "permission denied"));
    let result = parse_all_recursive(vec![
        file("1", &good),
        file("2", "no version here"),
        Err(ResolvedError::Glob(String::from("unreadable"))),
    ]);
    assert!(matches!(&result, Err(ResolvedError::VersionNotFound(path)) if path == "2"));
    let result = parse_all_recursive(vec![Err(ResolvedError::Pattern(String::from("bad")))]);
    assert!(matches!(&result, Err(ResolvedError::Pattern(why)) if why == "bad"));
}

#[test]
fn lock_files_are_looked_for_at_any_depth() {
    assert_eq!(
        spm_git_swap::resolved::lock_file_pattern("/project"),
        "/project/**/Package.resolved"
    );
    assert_eq!(spm_git_swap::resolved::lock_file_pattern("."), "./**/Package.resolved");
}

#[test]
fn a_directory_that_cannot_be_searched_ends_the_work() {
    let good = one_pin("a", "la", "1");
    let result = parse_all_recursive(vec![
        file("1", &good),
        Err(ResolvedError::Glob(String::from("unreadable directory"))),
    ]);
    assert!(matches!(&result, Err(ResolvedError::Glob(why)) if why == "unreadable directory"));
}

#[test]
fn a_later_file_that_is_no_json_ends_the_work() {
    let good = one_pin("a", "la", "1");
    let result = parse_all_recursive(vec![file("1", &good), file("2", "[\n\"version\": 2\n")]);
    assert!(matches!(result, Err(ResolvedError::Serde(DecodeError::Syntax(_)))));
}
