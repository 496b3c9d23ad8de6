//! The redirects of the global Git configuration as a reconciliation leaves
//! them, proved over a model of the configuration: a map from the name of an
//! entry to its value.

use vstd::prelude::*;

use crate::checkout::{
    lemma_fewer_operations_left, operations_left, CheckoutView, Outcome, Phase, Stage,
};
use crate::repo::{redirect_key, ActionView, PackageRepoError};
use crate::resolved::v2::PinView;

verus! {

/// The entries once the caller has performed `action` and reports `reply`.
/// Only a removal and a write that succeeded change them.
pub open spec fn performed(
    entries: Map<Seq<char>, Seq<char>>,
    action: ActionView,
    reply: Result<bool, PackageRepoError>,
) -> Map<Seq<char>, Seq<char>> {
    match (action, reply) {
        (ActionView::RemoveRedirect { key }, Ok(_)) => entries.remove(key),
        (ActionView::SetRedirect { key, value }, Ok(_)) => entries.insert(key, value),
        _ => entries,
    }
}

/// Whether `reply` answers `action` as the entries are: asked for an entry,
/// the caller says that it is there exactly if it is.
pub open spec fn truthful(
    entries: Map<Seq<char>, Seq<char>>,
    action: ActionView,
    reply: Result<bool, PackageRepoError>,
) -> bool {
    match (action, reply) {
        (ActionView::FindRedirect { key }, Ok(found)) => found == entries.contains_key(key),
        _ => true,
    }
}

/// The reconciliation and the entries after the caller has performed the
/// operations asked for, one after the other, with `replies`. Replies that
/// come after the reconciliation has ended change nothing.
pub open spec fn run(
    checkout: CheckoutView,
    entries: Map<Seq<char>, Seq<char>>,
    replies: Seq<Result<bool, PackageRepoError>>,
) -> (CheckoutView, Map<Seq<char>, Seq<char>>)
    decreases replies.len(),
{
    if replies.len() == 0 {
        (checkout, entries)
    } else {
        match checkout.action() {
            Some(action) => run(
                checkout.advance(replies[0]),
                performed(entries, action, replies[0]),
                replies.drop_first(),
            ),
            None => (checkout, entries),
        }
    }
}

/// Whether each of `replies` is truthful at the moment it is given.
pub open spec fn honest(
    checkout: CheckoutView,
    entries: Map<Seq<char>, Seq<char>>,
    replies: Seq<Result<bool, PackageRepoError>>,
) -> bool
    decreases replies.len(),
{
    if replies.len() == 0 {
        true
    } else {
        match checkout.action() {
            Some(action) => truthful(entries, action, replies[0]) && honest(
                checkout.advance(replies[0]),
                performed(entries, action, replies[0]),
                replies.drop_first(),
            ),
            None => true,
        }
    }
}

/// What holds of the entries in each phase: from the moment the old redirect
/// is gone until the new one is written there is none, and after a fetch or a
/// clone that went through the redirect leads from the checkout to the pin's
/// location.
pub open spec fn consistent(checkout: CheckoutView, entries: Map<Seq<char>, Seq<char>>) -> bool {
    let key = redirect_key(checkout.path);
    match checkout.phase {
        Phase::FindRedirect | Phase::RemoveRedirect => true,
        Phase::Done(Outcome::Fetched) | Phase::Done(Outcome::Cloned) => entries.contains_key(key)
            && entries[key] == checkout.location,
        Phase::Done(Outcome::Failed(Stage::Fetch, _))
        | Phase::Done(Outcome::Failed(Stage::Clone, _)) => !entries.contains_key(key),
        Phase::Done(_) => true,
        _ => !entries.contains_key(key),
    }
}

/// One truthful reply keeps the entries consistent with the reconciliation.
pub proof fn lemma_step_consistent(
    checkout: CheckoutView,
    entries: Map<Seq<char>, Seq<char>>,
    reply: Result<bool, PackageRepoError>,
)
    requires
        consistent(checkout, entries),
        checkout.action() is Some,
        truthful(entries, checkout.action()->0, reply),
    ensures
        consistent(checkout.advance(reply), performed(entries, checkout.action()->0, reply)),
{
}

/// Truthful replies keep the entries consistent with the reconciliation.
pub proof fn lemma_run_consistent(
    checkout: CheckoutView,
    entries: Map<Seq<char>, Seq<char>>,
    replies: Seq<Result<bool, PackageRepoError>>,
)
    requires
        consistent(checkout, entries),
        honest(checkout, entries, replies),
    ensures
        consistent(run(checkout, entries, replies).0, run(checkout, entries, replies).1),
    decreases replies.len(),
{
    if replies.len() > 0 && checkout.action() is Some {
        let action = checkout.action()->0;
        lemma_step_consistent(checkout, entries, replies[0]);
        lemma_run_consistent(
            checkout.advance(replies[0]),
            performed(entries, action, replies[0]),
            replies.drop_first(),
        );
    }
}

/// After a reconciliation that fetched or cloned, the configuration holds a
/// redirect from the pin's checkout to the pin's location, whatever it held
/// before.
pub proof fn lemma_redirect_after_success(
    dir: Seq<char>,
    pin: PinView,
    entries: Map<Seq<char>, Seq<char>>,
    replies: Seq<Result<bool, PackageRepoError>>,
)
    requires
        honest(CheckoutView::start(dir, pin), entries, replies),
        run(CheckoutView::start(dir, pin), entries, replies).0.phase == Phase::Done(
            Outcome::Fetched,
        ) || run(CheckoutView::start(dir, pin), entries, replies).0.phase == Phase::Done(
            Outcome::Cloned,
        ),
    ensures
        ({
            let after = run(CheckoutView::start(dir, pin), entries, replies).1;
            let key = redirect_key(CheckoutView::start(dir, pin).path);
            after.contains_key(key) && after[key] == pin.location
        }),
{
    let start = CheckoutView::start(dir, pin);
    lemma_run_consistent(start, entries, replies);
    lemma_run_keeps_target(start, entries, replies);
}

/// After a reconciliation whose fetch or clone failed, the configuration
/// holds no redirect from the pin's checkout, whatever it held before.
pub proof fn lemma_no_redirect_after_failure(
    dir: Seq<char>,
    pin: PinView,
    entries: Map<Seq<char>, Seq<char>>,
    replies: Seq<Result<bool, PackageRepoError>>,
)
    requires
        honest(CheckoutView::start(dir, pin), entries, replies),
        run(CheckoutView::start(dir, pin), entries, replies).0.phase matches Phase::Done(
            Outcome::Failed(stage, _),
        ) && (stage == Stage::Clone || stage == Stage::Fetch),
    ensures
        !run(CheckoutView::start(dir, pin), entries, replies).1.contains_key(
            redirect_key(CheckoutView::start(dir, pin).path),
        ),
{
    let start = CheckoutView::start(dir, pin);
    lemma_run_consistent(start, entries, replies);
    lemma_run_keeps_target(start, entries, replies);
}

/// A reconciliation never changes which location and which checkout it is about.
pub proof fn lemma_run_keeps_target(
    checkout: CheckoutView,
    entries: Map<Seq<char>, Seq<char>>,
    replies: Seq<Result<bool, PackageRepoError>>,
)
    ensures
        run(checkout, entries, replies).0.location == checkout.location,
        run(checkout, entries, replies).0.path == checkout.path,
    decreases replies.len(),
{
    if replies.len() > 0 && checkout.action() is Some {
        lemma_run_keeps_target(
            checkout.advance(replies[0]),
            performed(entries, checkout.action()->0, replies[0]),
            replies.drop_first(),
        );
    }
}

/// A reconciliation has ended once the caller has answered as many
/// operations as were left, seven at most, whatever the answers were.
pub proof fn lemma_run_ends(
    checkout: CheckoutView,
    entries: Map<Seq<char>, Seq<char>>,
    replies: Seq<Result<bool, PackageRepoError>>,
)
    requires
        replies.len() >= operations_left(checkout.phase),
    ensures
        run(checkout, entries, replies).0.phase is Done,
    decreases replies.len(),
{
    if replies.len() > 0 && checkout.action() is Some {
        lemma_fewer_operations_left(checkout.phase, replies[0]);
        lemma_run_ends(
            checkout.advance(replies[0]),
            performed(entries, checkout.action()->0, replies[0]),
            replies.drop_first(),
        );
    }
}

} // verus!
