//! The checkout store: where it keeps what, and what it asks of the world
//! outside.

use vstd::prelude::*;
use vstd::string::*;

use crate::checkout::{Checkout, CheckoutView};
use crate::resolved::v2::Pin;
use crate::resolved::ResolvedError;

verus! {

/// Why an operation on the store failed.
#[derive(Debug)]
pub enum PackageRepoError {
    /// A file or directory could not be reached; the text says why.
    Io(String),
    /// Git refused or failed; the text says why.
    Git(String),
    /// The lock files could not be resolved.
    Resolve(ResolvedError),
    /// An archive could not be unpacked; the text says why.
    Zip(String),
    /// The global Git configuration could not be read or written; the text
    /// says why.
    GitConfig(String),
}

/// The directory of the store at `dir` that holds the checkouts.
pub open spec fn checkouts_path(dir: Seq<char>) -> Seq<char> {
    dir + "/checkouts"@
}

/// Where the store at `dir` keeps the checkout of the pin named `identity`.
pub open spec fn checkout_path(dir: Seq<char>, identity: Seq<char>) -> Seq<char> {
    checkouts_path(dir) + "/"@ + identity
}

/// The directory whose presence makes the directory at `path` a checkout.
pub open spec fn metadata_path(path: Seq<char>) -> Seq<char> {
    path + "/.git"@
}

/// The name of the configuration entry that redirects to the checkout at `path`.
pub open spec fn redirect_key(path: Seq<char>) -> Seq<char> {
    "url."@ + path + ".insteadOf"@
}

/// A way to authenticate with a remote.
#[derive(Debug, PartialEq, Eq, Structural, Clone, Copy)]
pub enum Mechanism {
    CredentialHelper,
    DefaultUsername,
    SshAgent,
    DefaultSshKeys,
}

/// The mechanisms in the order in which they are to be tried.
pub open spec fn mechanisms() -> Seq<Mechanism> {
    seq![
        Mechanism::CredentialHelper,
        Mechanism::DefaultUsername,
        Mechanism::SshAgent,
        Mechanism::DefaultSshKeys,
    ]
}

/// One operation on the world outside: on the global Git configuration, on
/// the file system, or on a remote. The caller performs it and reports how it
/// went as a `Result<bool, PackageRepoError>`: `Ok(true)` and `Ok(false)` answer
/// a question, any `Ok` says that a change was made, `Err` that it failed.
/// A failure of the configuration is reported as `GitConfig`, one of a
/// repository or a remote as `Git`, one of the file system as `Io`.
#[derive(Debug, PartialEq, Eq)]
pub enum Action {
    /// Is there a configuration entry named `key`?
    FindRedirect { key: String },
    /// Remove the configuration entry named `key`.
    RemoveRedirect { key: String },
    /// Is there a directory at `path`?
    Exists { path: String },
    /// Open the repository at `path` and fetch `refspec` from `remote`.
    Fetch { path: String, remote: String, refspec: String },
    /// Clone `url` into `path`.
    Clone { url: String, path: String },
    /// Remove the directory at `path` with all that is in it.
    RemoveTree { path: String },
    /// Set the configuration entry named `key` to `value`.
    SetRedirect { key: String, value: String },
}

pub ghost enum ActionView {
    FindRedirect { key: Seq<char> },
    RemoveRedirect { key: Seq<char> },
    Exists { path: Seq<char> },
    Fetch { path: Seq<char>, remote: Seq<char>, refspec: Seq<char> },
    Clone { url: Seq<char>, path: Seq<char> },
    RemoveTree { path: Seq<char> },
    SetRedirect { key: Seq<char>, value: Seq<char> },
}

impl View for Action {
    type V = ActionView;

    open spec fn view(&self) -> ActionView {
        match self {
            Action::FindRedirect { key } => ActionView::FindRedirect { key: key@ },
            Action::RemoveRedirect { key } => ActionView::RemoveRedirect { key: key@ },
            Action::Exists { path } => ActionView::Exists { path: path@ },
            Action::Fetch { path, remote, refspec } => ActionView::Fetch {
                path: path@,
                remote: remote@,
                refspec: refspec@,
            },
            Action::Clone { url, path } => ActionView::Clone { url: url@, path: path@ },
            Action::RemoveTree { path } => ActionView::RemoveTree { path: path@ },
            Action::SetRedirect { key, value } => ActionView::SetRedirect {
                key: key@,
                value: value@,
            },
        }
    }
}

/// The view of an action that may be absent.
pub open spec fn action_view(action: Option<Action>) -> Option<ActionView> {
    match action {
        Some(a) => Some(a@),
        None => None,
    }
}

/// The store: the directory it lies in and how it authenticates.
#[derive(Debug)]
pub struct PackageRepo {
    dir: String,
    git: Vec<Mechanism>,
}

pub ghost struct PackageRepoView {
    pub dir: Seq<char>,
    pub git: Seq<Mechanism>,
}

impl View for PackageRepo {
    type V = PackageRepoView;

    closed spec fn view(&self) -> PackageRepoView {
        PackageRepoView { dir: self.dir@, git: self.git@ }
    }
}

/// Where the store at `dir` keeps the checkout of the pin named `identity`.
pub fn checkout_dir(dir: &str, identity: &str) -> (path: String)
    ensures
        path@ == checkout_path(dir@, identity@),
{
    let mut path = String::from_str(dir);
    path.append("/checkouts");
    path.append("/");
    path.append(identity);
    path
}

impl PackageRepo {
    /// The store at `repo_dir`; without one, the store in the directory
    /// `swifter-package-manager` of `working_dir`.
    pub fn new(working_dir: &str, repo_dir: Option<String>) -> (repo: Self)
        ensures
            repo@.dir == match repo_dir {
                Some(dir) => dir@,
                None => working_dir@ + "/swifter-package-manager"@,
            },
            repo@.git == mechanisms(),
    {
        let dir = match repo_dir {
            Some(dir) => dir,
            None => {
                let mut dir = String::from_str(working_dir);
                dir.append("/swifter-package-manager");
                dir
            },
        };
        let mut git: Vec<Mechanism> = Vec::new();
        git.push(Mechanism::CredentialHelper);
        git.push(Mechanism::DefaultUsername);
        git.push(Mechanism::SshAgent);
        git.push(Mechanism::DefaultSshKeys);
        assert(git@ =~= mechanisms());
        PackageRepo { dir, git }
    }

    /// The directory of the store.
    pub fn dir(&self) -> (dir: &str)
        ensures
            dir@ == self@.dir,
    {
        self.dir.as_str()
    }

    /// The mechanisms to authenticate with, in the order to try them in.
    pub fn git(&self) -> (git: &Vec<Mechanism>)
        ensures
            git@ == self@.git,
    {
        &self.git
    }

    /// The directory that holds the checkouts.
    pub fn checkouts_dir(&self) -> (path: String)
        ensures
            path@ == checkouts_path(self@.dir),
    {
        let mut path = self.dir.clone();
        path.append("/checkouts");
        path
    }

    /// What removes every checkout: the removal of the checkouts directory.
    pub fn wipe(&self) -> (action: Action)
        ensures
            action@ == (ActionView::RemoveTree { path: checkouts_path(self@.dir) }),
    {
        Action::RemoveTree { path: self.checkouts_dir() }
    }

    /// What asks whether there is a redirect to the checkout at `proxy_path`.
    pub fn find_global_git_proxy(proxy_path: &str) -> (action: Action)
        ensures
            action@ == (ActionView::FindRedirect { key: redirect_key(proxy_path@) }),
    {
        Action::FindRedirect { key: Self::key(proxy_path) }
    }

    /// What redirects `repo_url` to the checkout at `proxy_path`.
    pub fn set_global_git_proxy(repo_url: &str, proxy_path: &str) -> (action: Action)
        ensures
            action@ == (ActionView::SetRedirect {
                key: redirect_key(proxy_path@),
                value: repo_url@,
            }),
    {
        Action::SetRedirect { key: Self::key(proxy_path), value: String::from_str(repo_url) }
    }

    /// What takes the redirect to the checkout at `proxy_path` away, given
    /// whether there is one: nothing where there is none.
    pub fn remove_global_git_proxy(proxy_path: &str, present: bool) -> (action: Option<Action>)
        ensures
            action_view(action) == if present {
                Some(ActionView::RemoveRedirect { key: redirect_key(proxy_path@) })
            } else {
                None
            },
    {
        if present {
            Some(Action::RemoveRedirect { key: Self::key(proxy_path) })
        } else {
            None
        }
    }

    fn key(proxy_path: &str) -> (key: String)
        ensures
            key@ == redirect_key(proxy_path@),
    {
        let mut key = String::from_str("url.");
        key.append(proxy_path);
        key.append(".insteadOf");
        key
    }
}

impl PackageRepo {
    /// Begins to reconcile `pin` with its checkout in this store.
    pub fn clone(&self, pin: &Pin) -> (checkout: Checkout)
        ensures
            checkout@ == CheckoutView::start(self@.dir, pin@),
    {
        Checkout::start(self.dir.as_str(), pin)
    }
}

} // verus!
