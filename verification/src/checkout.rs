//! The reconciliation of one pin with its checkout: what to ask of the
//! world outside, step by step, and how it ends.

use vstd::prelude::*;
use vstd::string::*;

use crate::address::{clone_address, clone_url};
use crate::repo::{
    checkout_dir, checkout_path, metadata_path, redirect_key, action_view, Action, ActionView,
    PackageRepo, PackageRepoError,
};
use crate::resolved::v2::{Kind, Pin, PinView};

verus! {

/// The step of a reconciliation that failed.
#[derive(Debug, PartialEq, Eq, Structural, Clone, Copy)]
pub enum Stage {
    /// Taking the old redirect away.
    Redirect,
    /// Fetching into the checkout that was there.
    Fetch,
    /// Cloning into a new checkout.
    Clone,
    /// Writing the new redirect.
    Publish,
}

/// How the reconciliation of one pin ended.
#[derive(Debug)]
pub enum Outcome {
    /// The pin is no remote repository: nothing was done.
    Skipped,
    /// The checkout was there and has been updated.
    Fetched,
    /// The checkout was not there and has been cloned.
    Cloned,
    /// The step named failed with this error.
    Failed(Stage, PackageRepoError),
}

/// Where the reconciliation of one pin stands: the operation that is under
/// way, or how it ended.
#[derive(Debug)]
pub enum Phase {
    /// Asking whether a redirect to the checkout is configured.
    FindRedirect,
    /// Removing that redirect.
    RemoveRedirect,
    /// Asking whether the checkout directory is there.
    ProbeCheckout,
    /// Asking whether the directory holds a repository.
    ProbeMetadata,
    /// Fetching into the checkout.
    Fetch,
    /// Cloning into the checkout directory.
    Clone,
    /// The clone failed with this error; asking whether it left a directory.
    ProbeLeftover(PackageRepoError),
    /// The clone failed with this error; removing what it left.
    RemoveLeftover(PackageRepoError),
    /// Writing the redirect, after a fetch (`true`) or a clone (`false`).
    SetRedirect(bool),
    /// Nothing is left to do.
    Done(Outcome),
}

/// The phase that follows `phase` once the caller reports `reply` for the
/// operation under way.
pub open spec fn next_phase(phase: Phase, reply: Result<bool, PackageRepoError>) -> Phase {
    match phase {
        Phase::FindRedirect => match reply {
            Ok(true) => Phase::RemoveRedirect,
            Ok(false) => Phase::ProbeCheckout,
            Err(error) => Phase::Done(Outcome::Failed(Stage::Redirect, error)),
        },
        Phase::RemoveRedirect => match reply {
            Ok(_) => Phase::ProbeCheckout,
            Err(error) => Phase::Done(Outcome::Failed(Stage::Redirect, error)),
        },
        Phase::ProbeCheckout => match reply {
            Ok(true) => Phase::ProbeMetadata,
            _ => Phase::Clone,
        },
        Phase::ProbeMetadata => match reply {
            Ok(true) => Phase::Fetch,
            _ => Phase::Clone,
        },
        Phase::Fetch => match reply {
            Ok(_) => Phase::SetRedirect(true),
            Err(error) => Phase::Done(Outcome::Failed(Stage::Fetch, error)),
        },
        Phase::Clone => match reply {
            Ok(_) => Phase::SetRedirect(false),
            Err(error) => Phase::ProbeLeftover(error),
        },
        Phase::ProbeLeftover(error) => match reply {
            Ok(true) => Phase::RemoveLeftover(error),
            _ => Phase::Done(Outcome::Failed(Stage::Clone, error)),
        },
        Phase::RemoveLeftover(error) => Phase::Done(Outcome::Failed(Stage::Clone, error)),
        Phase::SetRedirect(fetched) => match reply {
            Ok(_) => Phase::Done(if fetched { Outcome::Fetched } else { Outcome::Cloned }),
            Err(error) => Phase::Done(Outcome::Failed(Stage::Publish, error)),
        },
        Phase::Done(outcome) => Phase::Done(outcome),
    }
}

/// How many operations a reconciliation in `phase` may still ask for.
pub open spec fn operations_left(phase: Phase) -> nat {
    match phase {
        Phase::FindRedirect => 7,
        Phase::RemoveRedirect => 6,
        Phase::ProbeCheckout => 5,
        Phase::ProbeMetadata => 4,
        Phase::Clone => 3,
        Phase::Fetch | Phase::ProbeLeftover(_) => 2,
        Phase::RemoveLeftover(_) | Phase::SetRedirect(_) => 1,
        Phase::Done(_) => 0,
    }
}

/// Each reply brings a reconciliation nearer to its end.
pub proof fn lemma_fewer_operations_left(phase: Phase, reply: Result<bool, PackageRepoError>)
    requires
        !(phase is Done),
    ensures
        operations_left(next_phase(phase, reply)) < operations_left(phase),
{
}

/// The reconciliation of one pin with its checkout.
#[derive(Debug)]
pub struct Checkout {
    location: String,
    path: String,
    phase: Phase,
}

pub ghost struct CheckoutView {
    /// The location that the pin names.
    pub location: Seq<char>,
    /// The directory of the checkout.
    pub path: Seq<char>,
    pub phase: Phase,
}

impl CheckoutView {
    /// The reconciliation of `pin` with the store at `dir`, before anything
    /// has been done.
    pub open spec fn start(dir: Seq<char>, pin: PinView) -> CheckoutView {
        CheckoutView {
            location: pin.location,
            path: checkout_path(dir, pin.identity),
            phase: if pin.kind == Kind::RemoteSourceControl {
                Phase::FindRedirect
            } else {
                Phase::Done(Outcome::Skipped)
            },
        }
    }

    /// The operation under way; `None` once nothing is left to do.
    pub open spec fn action(self) -> Option<ActionView> {
        match self.phase {
            Phase::FindRedirect => Some(ActionView::FindRedirect { key: redirect_key(self.path) }),
            Phase::RemoveRedirect => Some(
                ActionView::RemoveRedirect { key: redirect_key(self.path) },
            ),
            Phase::ProbeCheckout => Some(ActionView::Exists { path: self.path }),
            Phase::ProbeMetadata => Some(ActionView::Exists { path: metadata_path(self.path) }),
            Phase::Fetch => Some(
                ActionView::Fetch {
                    path: self.path,
                    remote: "origin"@,
                    refspec: "refs/heads/*:refs/heads/*"@,
                },
            ),
            Phase::Clone => Some(
                ActionView::Clone { url: clone_address(self.location), path: self.path },
            ),
            Phase::ProbeLeftover(_) => Some(ActionView::Exists { path: self.path }),
            Phase::RemoveLeftover(_) => Some(ActionView::RemoveTree { path: self.path }),
            Phase::SetRedirect(_) => Some(
                ActionView::SetRedirect { key: redirect_key(self.path), value: self.location },
            ),
            Phase::Done(_) => None,
        }
    }

    /// The reconciliation after `reply` to the operation under way.
    pub open spec fn advance(self, reply: Result<bool, PackageRepoError>) -> CheckoutView {
        CheckoutView { phase: next_phase(self.phase, reply), ..self }
    }
}

impl View for Checkout {
    type V = CheckoutView;

    closed spec fn view(&self) -> CheckoutView {
        CheckoutView { location: self.location@, path: self.path@, phase: self.phase }
    }
}

impl Checkout {
    /// Begins to reconcile `pin` with its checkout in the store at `dir`.
    pub fn start(dir: &str, pin: &Pin) -> (checkout: Checkout)
        ensures
            checkout@ == CheckoutView::start(dir@, pin@),
    {
        let path = checkout_dir(dir, pin.identity.as_str());
        let phase = if pin.kind == Kind::RemoteSourceControl {
            Phase::FindRedirect
        } else {
            Phase::Done(Outcome::Skipped)
        };
        Checkout { location: pin.location.clone(), path, phase }
    }

    /// The operation that the caller has to perform now; `None` once the
    /// reconciliation has ended.
    pub fn action(&self) -> (action: Option<Action>)
        ensures
            action_view(action) == self@.action(),
    {
        match &self.phase {
            Phase::FindRedirect => Some(PackageRepo::find_global_git_proxy(self.path.as_str())),
            Phase::RemoveRedirect => PackageRepo::remove_global_git_proxy(
                self.path.as_str(),
                true,
            ),
            Phase::ProbeCheckout => Some(Action::Exists { path: self.path.clone() }),
            Phase::ProbeMetadata => {
                let mut path = self.path.clone();
                path.append("/.git");
                Some(Action::Exists { path })
            },
            Phase::Fetch => Some(
                Action::Fetch {
                    path: self.path.clone(),
                    remote: String::from_str("origin"),
                    refspec: String::from_str("refs/heads/*:refs/heads/*"),
                },
            ),
            Phase::Clone => Some(
                Action::Clone { url: clone_url(self.location.as_str()), path: self.path.clone() },
            ),
            Phase::ProbeLeftover(_) => Some(Action::Exists { path: self.path.clone() }),
            Phase::RemoveLeftover(_) => Some(Action::RemoveTree { path: self.path.clone() }),
            Phase::SetRedirect(_) => Some(
                PackageRepo::set_global_git_proxy(self.location.as_str(), self.path.as_str()),
            ),
            Phase::Done(_) => None,
        }
    }

    /// Takes the caller's report on the operation under way and moves on.
    pub fn advance(self, reply: Result<bool, PackageRepoError>) -> (next: Checkout)
        ensures
            next@ == self@.advance(reply),
    {
        let Checkout { location, path, phase } = self;
        let phase = match phase {
            Phase::FindRedirect => match reply {
                Ok(true) => Phase::RemoveRedirect,
                Ok(false) => Phase::ProbeCheckout,
                Err(error) => Phase::Done(Outcome::Failed(Stage::Redirect, error)),
            },
            Phase::RemoveRedirect => match reply {
                Ok(_) => Phase::ProbeCheckout,
                Err(error) => Phase::Done(Outcome::Failed(Stage::Redirect, error)),
            },
            Phase::ProbeCheckout => match reply {
                Ok(true) => Phase::ProbeMetadata,
                _ => Phase::Clone,
            },
            Phase::ProbeMetadata => match reply {
                Ok(true) => Phase::Fetch,
                _ => Phase::Clone,
            },
            Phase::Fetch => match reply {
                Ok(_) => Phase::SetRedirect(true),
                Err(error) => Phase::Done(Outcome::Failed(Stage::Fetch, error)),
            },
            Phase::Clone => match reply {
                Ok(_) => Phase::SetRedirect(false),
                Err(error) => Phase::ProbeLeftover(error),
            },
            Phase::ProbeLeftover(error) => match reply {
                Ok(true) => Phase::RemoveLeftover(error),
                _ => Phase::Done(Outcome::Failed(Stage::Clone, error)),
            },
            Phase::RemoveLeftover(error) => Phase::Done(Outcome::Failed(Stage::Clone, error)),
            Phase::SetRedirect(fetched) => match reply {
                Ok(_) => Phase::Done(if fetched { Outcome::Fetched } else { Outcome::Cloned }),
                Err(error) => Phase::Done(Outcome::Failed(Stage::Publish, error)),
            },
            Phase::Done(outcome) => Phase::Done(outcome),
        };
        Checkout { location, path, phase }
    }

    /// The outcome of a reconciliation that has ended; the reconciliation
    /// itself while it is under way.
    pub fn finish(self) -> (r: Result<Outcome, Checkout>)
        ensures
            match r {
                Ok(outcome) => self@.phase == Phase::Done(outcome),
                Err(checkout) => checkout@ == self@ && !(self@.phase is Done),
            },
    {
        let Checkout { location, path, phase } = self;
        match phase {
            Phase::Done(outcome) => Ok(outcome),
            phase => Err(Checkout { location, path, phase }),
        }
    }

    /// How the reconciliation ended; `None` while it is under way.
    pub fn outcome(&self) -> (outcome: Option<&Outcome>)
        ensures
            match outcome {
                Some(o) => self@.phase == Phase::Done(*o),
                None => !(self@.phase is Done),
            },
    {
        match &self.phase {
            Phase::Done(outcome) => Some(outcome),
            _ => None,
        }
    }
}

/// Whether to fetch or to clone: with the checkout directory and the
/// repository in it both there, the next operation fetches every branch of
/// `origin`; with either missing it clones from the pin's address.
pub proof fn lemma_checkout_decision(checkout: CheckoutView, directory: bool, metadata: bool)
    requires
        checkout.phase == Phase::ProbeCheckout,
    ensures
        ({
            let probed = checkout.advance(Ok(directory));
            let decided = if directory {
                probed.advance(Ok(metadata))
            } else {
                probed
            };
            decided.action() == Some(
                if directory && metadata {
                    ActionView::Fetch {
                        path: checkout.path,
                        remote: "origin"@,
                        refspec: "refs/heads/*:refs/heads/*"@,
                    }
                } else {
                    ActionView::Clone {
                        url: clone_address(checkout.location),
                        path: checkout.path,
                    }
                },
            )
        }),
{
}

} // verus!
