use spm_git_swap::address::clone_url;

#[test]
fn github_https_becomes_ssh() {
    assert_eq!(
        clone_url("https://github.com/apple/swift-log"),
        "git@github.com:apple/swift-log"
    );
}

#[test]
fn github_https_keeps_the_git_suffix() {
    assert_eq!(
        clone_url("https://github.com/apple/swift-log.git"),
        "git@github.com:apple/swift-log.git"
    );
}

#[test]
fn other_hosts_pass_through() {
    assert_eq!(
        clone_url("https://gitlab.com/apple/swift-log"),
        "https://gitlab.com/apple/swift-log"
    );
    assert_eq!(clone_url("git@github.com:apple/swift-log"), "git@github.com:apple/swift-log");
    assert_eq!(clone_url("/srv/git/swift-log"), "/srv/git/swift-log");
    assert_eq!(clone_url(""), "");
}

#[test]
fn plain_http_is_not_rewritten() {
    assert_eq!(
        clone_url("http://github.com/apple/swift-log"),
        "http://github.com/apple/swift-log"
    );
}

#[test]
fn only_the_last_two_segments_are_kept() {
    assert_eq!(
        clone_url("https://github.com/apple/swift/log"),
        "git@github.com:swift/log"
    );
}

#[test]
fn a_bare_host_gives_its_last_two_segments() {
    assert_eq!(clone_url("https://github.com/"), "git@github.com:github.com/");
    assert_eq!(clone_url("https://github.com/apple"), "git@github.com:github.com/apple");
}

#[test]
fn a_trailing_slash_gives_an_empty_repository() {
    assert_eq!(clone_url("https://github.com/apple/swift-log/"), "git@github.com:swift-log/");
}

#[test]
fn characters_beyond_ascii_are_kept() {
    assert_eq!(
        clone_url("https://github.com/übung/größe"),
        "git@github.com:übung/größe"
    );
}
