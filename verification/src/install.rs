//! The installation of a list of pins: each pin is reconciled in turn, and
//! a pin that fails does not keep the pins after it from their turn.

use vstd::prelude::*;
use vstd::string::*;

use crate::merge::merged;
use crate::checkout::{Checkout, CheckoutView, Outcome, Phase};
use crate::repo::{action_view, checkout_path, Action, ActionView, PackageRepo, PackageRepoError};
use crate::resolved::v2::{pin_views, Kind, Pin, PinView};
use crate::resolved::{
    all_found, all_pins, parse_all_recursive, stopped_by, LockFile, ResolvedError,
};
use crate::views::option_view;

verus! {

/// How the reconciliation of one pin ended.
#[derive(Debug)]
pub struct Report {
    pub identity: String,
    pub location: String,
    pub outcome: Outcome,
}

pub ghost struct ReportView {
    pub identity: Seq<char>,
    pub location: Seq<char>,
    pub outcome: Outcome,
}

impl View for Report {
    type V = ReportView;

    open spec fn view(&self) -> ReportView {
        ReportView { identity: self.identity@, location: self.location@, outcome: self.outcome }
    }
}

/// The reports of a list, each by its view.
pub open spec fn report_views(reports: Seq<Report>) -> Seq<ReportView> {
    Seq::new(reports.len(), |i: int| reports[i]@)
}

/// An installation under way: the pins, the reports on those that are
/// finished, and the reconciliation of the pin whose turn it is.
#[derive(Debug)]
pub struct Installation {
    dir: String,
    pins: Vec<Pin>,
    reports: Vec<Report>,
    current: Option<Checkout>,
}

pub ghost struct InstallationView {
    /// The directory of the store.
    pub dir: Seq<char>,
    /// The pins to reconcile, in order.
    pub pins: Seq<PinView>,
    /// The reports on the pins that are finished, in the order of the pins.
    pub reports: Seq<ReportView>,
    /// The reconciliation of the pin that comes after those; `None` once
    /// every pin is finished.
    pub current: Option<CheckoutView>,
}

impl InstallationView {
    /// The report that `pin` ended with `outcome`.
    pub open spec fn report(pin: PinView, outcome: Outcome) -> ReportView {
        ReportView { identity: pin.identity, location: pin.location, outcome }
    }

    /// With no reconciliation under way: the installation once the next pin
    /// that has anything to do has its turn. The pins before it are reported
    /// as skipped.
    pub open spec fn settle(self) -> InstallationView
        decreases self.pins.len() - self.reports.len(),
    {
        if self.reports.len() >= self.pins.len() {
            InstallationView { current: None, ..self }
        } else {
            let pin = self.pins[self.reports.len() as int];
            let checkout = CheckoutView::start(self.dir, pin);
            match checkout.phase {
                Phase::Done(outcome) => InstallationView {
                    reports: self.reports.push(Self::report(pin, outcome)),
                    current: None,
                    ..self
                }.settle(),
                _ => InstallationView { current: Some(checkout), ..self },
            }
        }
    }

    /// The installation of `pins` into the store at `dir`, before anything
    /// has been done.
    pub open spec fn begin(dir: Seq<char>, pins: Seq<PinView>) -> InstallationView {
        InstallationView { dir, pins, reports: Seq::empty(), current: None }.settle()
    }

    /// The operation under way; `None` once every pin is finished.
    pub open spec fn action(self) -> Option<ActionView> {
        match self.current {
            Some(checkout) => checkout.action(),
            None => None,
        }
    }

    /// The installation after `reply` to the operation under way. Where it
    /// ends the reconciliation of a pin, well or badly, the pin is reported
    /// and the next one has its turn.
    pub open spec fn advance(self, reply: Result<bool, PackageRepoError>) -> InstallationView {
        match self.current {
            Some(checkout) => {
                let next = checkout.advance(reply);
                match next.phase {
                    Phase::Done(outcome) => InstallationView {
                        reports: self.reports.push(
                            Self::report(self.pins[self.reports.len() as int], outcome),
                        ),
                        current: None,
                        ..self
                    }.settle(),
                    _ => InstallationView { current: Some(next), ..self },
                }
            },
            None => self,
        }
    }

    /// Whether the reports are those of the first pins, in order, and a pin
    /// is reported as skipped exactly if it is no remote repository.
    pub open spec fn reported(self) -> bool {
        &&& self.reports.len() <= self.pins.len()
        &&& forall|i: int|
            0 <= i < self.reports.len() ==> {
                &&& (#[trigger] self.reports[i]).identity == self.pins[i].identity
                &&& self.reports[i].location == self.pins[i].location
                &&& (self.reports[i].outcome is Skipped) == (self.pins[i].kind
                    != Kind::RemoteSourceControl)
            }
    }

    /// What holds of every installation: the pins before the one whose turn
    /// it is are reported, and the reconciliation under way is that of a
    /// remote repository. With none under way every pin is reported.
    pub open spec fn wf(self) -> bool {
        &&& self.reported()
        &&& match self.current {
            Some(checkout) => {
                &&& self.reports.len() < self.pins.len()
                &&& self.pins[self.reports.len() as int].kind == Kind::RemoteSourceControl
                &&& checkout.location == self.pins[self.reports.len() as int].location
                &&& checkout.path == checkout_path(
                    self.dir,
                    self.pins[self.reports.len() as int].identity,
                )
                &&& !(checkout.phase is Done)
            },
            None => self.reports.len() == self.pins.len(),
        }
    }
}

/// Giving the next pin its turn leaves a well-formed installation with the
/// same store and pins.
pub proof fn lemma_settle_wf(installation: InstallationView)
    requires
        installation.reported(),
        installation.current is None,
    ensures
        installation.settle().wf(),
        installation.settle().dir == installation.dir,
        installation.settle().pins == installation.pins,
    decreases installation.pins.len() - installation.reports.len(),
{
    if installation.reports.len() < installation.pins.len() {
        let pin = installation.pins[installation.reports.len() as int];
        let checkout = CheckoutView::start(installation.dir, pin);
        if let Phase::Done(outcome) = checkout.phase {
            let next = InstallationView {
                reports: installation.reports.push(InstallationView::report(pin, outcome)),
                current: None,
                ..installation
            };
            lemma_settle_wf(next);
        }
    }
}

/// An installation begins well-formed.
pub proof fn lemma_begin_wf(dir: Seq<char>, pins: Seq<PinView>)
    ensures
        InstallationView::begin(dir, pins).wf(),
        InstallationView::begin(dir, pins).dir == dir,
        InstallationView::begin(dir, pins).pins == pins,
{
    lemma_settle_wf(InstallationView { dir, pins, reports: Seq::empty(), current: None });
}

/// No reply makes a well-formed installation ill-formed or changes its
/// pins: a pin that fails is reported, and the pins after it keep their turn.
pub proof fn lemma_advance_wf(installation: InstallationView, reply: Result<bool, PackageRepoError>)
    requires
        installation.wf(),
    ensures
        installation.advance(reply).wf(),
        installation.advance(reply).dir == installation.dir,
        installation.advance(reply).pins == installation.pins,
{
    if let Some(checkout) = installation.current {
        let next = checkout.advance(reply);
        if let Phase::Done(outcome) = next.phase {
            let reported = InstallationView {
                reports: installation.reports.push(
                    InstallationView::report(
                        installation.pins[installation.reports.len() as int],
                        outcome,
                    ),
                ),
                current: None,
                ..installation
            };
            assert(!(outcome is Skipped));
            lemma_settle_wf(reported);
        }
    }
}

impl View for Installation {
    type V = InstallationView;

    closed spec fn view(&self) -> InstallationView {
        InstallationView {
            dir: self.dir@,
            pins: pin_views(self.pins@),
            reports: report_views(self.reports@),
            current: option_view(self.current),
        }
    }
}

impl Installation {
    #[verifier::type_invariant]
    spec fn valid(self) -> bool {
        self@.wf()
    }

    /// Gives the next pin that has anything to do its turn.
    #[verifier::loop_isolation(false)]
    fn settle(dir: String, pins: Vec<Pin>, reports: Vec<Report>) -> (installation: Installation)
        requires
            (InstallationView {
                dir: dir@,
                pins: pin_views(pins@),
                reports: report_views(reports@),
                current: None,
            }).reported(),
        ensures
            installation@ == (InstallationView {
                dir: dir@,
                pins: pin_views(pins@),
                reports: report_views(reports@),
                current: None,
            }).settle(),
    {
        let ghost first = InstallationView {
            dir: dir@,
            pins: pin_views(pins@),
            reports: report_views(reports@),
            current: None,
        };
        let mut reports = reports;
        while reports.len() < pins.len()
            invariant
                first.settle() == (InstallationView {
                    dir: dir@,
                    pins: pin_views(pins@),
                    reports: report_views(reports@),
                    current: None,
                }).settle(),
                (InstallationView {
                    dir: dir@,
                    pins: pin_views(pins@),
                    reports: report_views(reports@),
                    current: None,
                }).reported(),
            decreases pins.len() - reports.len(),
        {
            let ghost here = InstallationView {
                dir: dir@,
                pins: pin_views(pins@),
                reports: report_views(reports@),
                current: None,
            };
            let pin = &pins[reports.len()];
            assert(here.pins[here.reports.len() as int] == pin@);
            let checkout = Checkout::start(dir.as_str(), pin);
            match checkout.finish() {
                Ok(outcome) => {
                    let report = Report {
                        identity: pin.identity.clone(),
                        location: pin.location.clone(),
                        outcome,
                    };
                    reports.push(report);
                    proof {
                        assert(report_views(reports@) =~= here.reports.push(
                            InstallationView::report(pin@, outcome),
                        ));
                    }
                },
                Err(checkout) => {
                    proof {
                        lemma_settle_wf(here);
                    }
                    return Installation { dir, pins, reports, current: Some(checkout) };
                },
            }
        }
        proof {
            lemma_settle_wf(
                InstallationView {
                    dir: dir@,
                    pins: pin_views(pins@),
                    reports: report_views(reports@),
                    current: None,
                },
            );
        }
        Installation { dir, pins, reports, current: None }
    }

    /// The operation that the caller has to perform now; `None` once every
    /// pin is finished.
    pub fn action(&self) -> (action: Option<Action>)
        ensures
            action_view(action) == self@.action(),
    {
        match &self.current {
            Some(checkout) => checkout.action(),
            None => None,
        }
    }

    /// Takes the caller's report on the operation under way and moves on.
    pub fn advance(self, reply: Result<bool, PackageRepoError>) -> (next: Installation)
        ensures
            next@ == self@.advance(reply),
    {
        proof {
            use_type_invariant(&self);
            lemma_advance_wf(self@, reply);
        }
        let Installation { dir, pins, reports, current } = self;
        let checkout = match current {
            Some(checkout) => checkout,
            None => {
                return Installation { dir, pins, reports, current: None };
            },
        };
        match checkout.advance(reply).finish() {
            Ok(outcome) => {
                let ghost before = report_views(reports@);
                let pin = &pins[reports.len()];
                let report = Report {
                    identity: pin.identity.clone(),
                    location: pin.location.clone(),
                    outcome,
                };
                let mut reports = reports;
                reports.push(report);
                assert(report_views(reports@) =~= before.push(
                    InstallationView::report(pin@, outcome),
                ));
                Self::settle(dir, pins, reports)
            },
            Err(checkout) => Installation { dir, pins, reports, current: Some(checkout) },
        }
    }

    /// Whether every pin is finished.
    pub fn is_finished(&self) -> (finished: bool)
        ensures
            finished == (self@.current is None),
            finished ==> self@.reports.len() == self@.pins.len(),
    {
        proof {
            use_type_invariant(self);
        }
        self.current.is_none()
    }

    /// The reports on the pins that are finished, in the order of the pins.
    pub fn reports(&self) -> (reports: &Vec<Report>)
        ensures
            report_views(reports@) == self@.reports,
    {
        &self.reports
    }

    /// The pins that are installed, in order.
    pub fn pins(&self) -> (pins: &Vec<Pin>)
        ensures
            pin_views(pins@) == self@.pins,
    {
        &self.pins
    }
}

impl PackageRepo {
    /// Begins to reconcile `pins` with this store, one after the other.
    pub fn reconcile(&self, pins: Vec<Pin>) -> (installation: Installation)
        ensures
            installation@ == InstallationView::begin(self@.dir, pin_views(pins@)),
    {
        let reports: Vec<Report> = Vec::new();
        assert(report_views(reports@) =~= Seq::empty());
        Installation::settle(String::from_str(self.dir()), pins, reports)
    }

    /// Begins to install the pins of the lock files found under a
    /// directory. An entry that has no pins ends the work before anything is
    /// reconciled.
    pub fn install(&self, entries: Vec<Result<LockFile, ResolvedError>>) -> (r: Result<
        Installation,
        PackageRepoError,
    >)
        ensures
            match r {
                Ok(installation) => all_found(entries@) && installation@ == InstallationView::begin(
                    self@.dir,
                    merged(all_pins(entries@)),
                ),
                Err(error) => error matches PackageRepoError::Resolve(inner) && stopped_by(
                    entries@,
                    inner,
                ),
            },
    {
        match parse_all_recursive(entries) {
            Ok(pins) => Ok(self.reconcile(pins)),
            Err(error) => Err(PackageRepoError::Resolve(error)),
        }
    }
}

} // verus!
