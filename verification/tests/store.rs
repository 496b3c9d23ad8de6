use spm_git_swap::repo::{Action, Mechanism, PackageRepo};

#[test]
fn the_store_lies_where_it_is_told_to() {
    let repo = PackageRepo::new("/work", Some(String::from("/var/packages")));
    assert_eq!(repo.dir(), "/var/packages");
    assert_eq!(repo.checkouts_dir(), "/var/packages/checkouts");
}

#[test]
fn the_store_defaults_to_a_directory_of_the_working_directory() {
    let repo = PackageRepo::new("/work", None);
    assert_eq!(repo.dir(), "/work/swifter-package-manager");
    assert_eq!(repo.checkouts_dir(), "/work/swifter-package-manager/checkouts");
}

#[test]
fn authentication_is_tried_in_this_order() {
    let repo = PackageRepo::new("/work", None);
    assert_eq!(
        repo.git(),
        &vec![
            Mechanism::CredentialHelper,
            Mechanism::DefaultUsername,
            Mechanism::SshAgent,
            Mechanism::DefaultSshKeys,
        ]
    );
}

#[test]
fn wiping_removes_the_checkouts_directory() {
    let repo = PackageRepo::new("/work", Some(String::from("/store")));
    assert_eq!(repo.wipe(), Action::RemoveTree { path: String::from("/store/checkouts") });
}

#[test]
fn a_redirect_is_an_instead_of_entry_for_the_checkout() {
    assert_eq!(
        PackageRepo::set_global_git_proxy("https://example.org/a.git", "/store/checkouts/a"),
        Action::SetRedirect {
            key: String::from("url./store/checkouts/a.insteadOf"),
            value: String::from("https://example.org/a.git"),
        }
    );
}

#[test]
fn a_redirect_is_removed_only_where_there_is_one() {
    assert_eq!(
        PackageRepo::remove_global_git_proxy("/store/checkouts/a", true),
        Some(Action::RemoveRedirect { key: String::from("url./store/checkouts/a.insteadOf") })
    );
    assert_eq!(PackageRepo::remove_global_git_proxy("/store/checkouts/a", false), None);
}
