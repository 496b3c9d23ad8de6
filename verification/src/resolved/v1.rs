//! The first lock file schema, with the pins behind an `object`, and how a
//! lock file written in it reads in the current schema.

use vstd::prelude::*;
use vstd::string::*;

use crate::json::{json_of_text, read_json, Json};
use crate::resolved::v2;
use crate::resolved::{DecodeError, ResolvedError};
use crate::views::{option_view, text_view};

verus! {

/// A lock file of the first schema.
#[derive(Debug)]
pub struct Resolved {
    pub object: Object,
}

/// What a lock file of the first schema wraps its pins in.
#[derive(Debug)]
pub struct Object {
    pub pins: Vec<Pin>,
}

/// One pinned dependency, always a remote repository.
#[derive(Debug)]
#[allow(non_snake_case)]
pub struct Pin {
    pub package: String,
    pub repositoryURL: String,
    pub state: State,
}

/// The revision a pin is held at, and the branch it was taken from.
#[derive(Debug)]
pub struct State {
    pub branch: Option<String>,
    pub revision: String,
    pub version: Option<String>,
}

pub ghost struct StateView {
    pub branch: Option<Seq<char>>,
    pub revision: Seq<char>,
    pub version: Option<Seq<char>>,
}

pub ghost struct PinView {
    pub package: Seq<char>,
    pub repository_url: Seq<char>,
    pub state: StateView,
}

pub ghost struct ObjectView {
    pub pins: Seq<PinView>,
}

pub ghost struct ResolvedView {
    pub object: ObjectView,
}

impl View for State {
    type V = StateView;

    open spec fn view(&self) -> StateView {
        StateView {
            branch: text_view(self.branch),
            revision: self.revision@,
            version: text_view(self.version),
        }
    }
}

impl View for Pin {
    type V = PinView;

    open spec fn view(&self) -> PinView {
        PinView {
            package: self.package@,
            repository_url: self.repositoryURL@,
            state: self.state@,
        }
    }
}

/// The pins of a list, each by its view.
pub open spec fn pin_views(pins: Seq<Pin>) -> Seq<PinView> {
    Seq::new(pins.len(), |i: int| pins[i]@)
}

impl View for Object {
    type V = ObjectView;

    open spec fn view(&self) -> ObjectView {
        ObjectView { pins: pin_views(self.pins@) }
    }
}

impl View for Resolved {
    type V = ResolvedView;

    open spec fn view(&self) -> ResolvedView {
        ResolvedView { object: self.object@ }
    }
}

/// The state that `tree` holds: a `revision`, and a `branch` and a `version`
/// that need not be there.
pub open spec fn state_in(tree: Json) -> Option<StateView> {
    match (
        tree.optional_text_of("branch"@),
        tree.text_of("revision"@),
        tree.optional_text_of("version"@),
    ) {
        (Some(branch), Some(revision), Some(version)) => Some(
            StateView { branch, revision, version },
        ),
        _ => None,
    }
}

/// The pin that `tree` holds: a `package`, a `repositoryURL` and a `state`.
pub open spec fn pin_in(tree: Json) -> Option<PinView> {
    match (tree.text_of("package"@), tree.text_of("repositoryURL"@), tree.member("state"@)) {
        (Some(package), Some(repository_url), Some(state)) => match state_in(state) {
            Some(state) => Some(PinView { package, repository_url, state }),
            None => None,
        },
        _ => None,
    }
}

/// The pins that `items` hold, where each of them holds one.
pub open spec fn pins_in(items: Seq<Json>) -> Option<Seq<PinView>> {
    if forall|i: int| 0 <= i < items.len() ==> (#[trigger] pin_in(items[i])) is Some {
        Some(Seq::new(items.len(), |i: int| pin_in(items[i])->0))
    } else {
        None
    }
}

/// The lock file that `tree` holds: an `object` with a list of `pins`.
pub open spec fn resolved_in(tree: Json) -> Option<ResolvedView> {
    match tree.member("object"@) {
        Some(object) => match object.items_of("pins"@) {
            Some(items) => match pins_in(items) {
                Some(pins) => Some(ResolvedView { object: ObjectView { pins } }),
                None => None,
            },
            None => None,
        },
        None => None,
    }
}

/// The pin as the current schema writes it: the package is its identity,
/// the repository its location, its kind a remote repository. The branch is
/// dropped.
pub open spec fn normalized_pin(pin: PinView) -> v2::PinView {
    v2::PinView {
        identity: pin.package,
        kind: v2::Kind::RemoteSourceControl,
        location: pin.repository_url,
        state: v2::StateView { revision: pin.state.revision, version: pin.state.version },
    }
}

/// The lock file as the current schema writes it: the same pins in the same
/// order, under version 2.
pub open spec fn normalized(resolved: ResolvedView) -> v2::ResolvedView {
    v2::ResolvedView {
        pins: Seq::new(
            resolved.object.pins.len(),
            |i: int| normalized_pin(resolved.object.pins[i]),
        ),
        version: 2,
    }
}

/// Read in the current schema, a lock file of the first schema has version
/// 2 and as many pins as before, each a remote repository with the package
/// as its identity, the repository as its location, and the revision and
/// version it had; no branch is left.
pub proof fn lemma_normalized(resolved: ResolvedView, i: int)
    requires
        0 <= i < resolved.object.pins.len(),
    ensures
        normalized(resolved).version == 2,
        normalized(resolved).pins.len() == resolved.object.pins.len(),
        normalized(resolved).pins[i].identity == resolved.object.pins[i].package,
        normalized(resolved).pins[i].location == resolved.object.pins[i].repository_url,
        normalized(resolved).pins[i].kind == v2::Kind::RemoteSourceControl,
        normalized(resolved).pins[i].state.revision == resolved.object.pins[i].state.revision,
        normalized(resolved).pins[i].state.version == resolved.object.pins[i].state.version,
{
}

impl State {
    /// Reads a state from its JSON.
    pub fn decode(tree: &Json) -> (r: Option<State>)
        ensures
            option_view(r) == state_in(*tree),
    {
        let branch = tree.get_optional_text("branch");
        let revision = tree.get_text("revision");
        let version = tree.get_optional_text("version");
        match (branch, revision, version) {
            (Some(branch), Some(revision), Some(version)) => Some(
                State { branch, revision, version },
            ),
            _ => None,
        }
    }
}

impl Pin {
    /// Reads a pin from its JSON.
    pub fn decode(tree: &Json) -> (r: Option<Pin>)
        ensures
            option_view(r) == pin_in(*tree),
    {
        let package = tree.get_text("package");
        let repository = tree.get_text("repositoryURL");
        let state = tree.get("state");
        match (package, repository, state) {
            (Some(package), Some(repository), Some(state)) => match State::decode(state) {
                Some(state) => Some(Pin { package, repositoryURL: repository, state }),
                None => None,
            },
            _ => None,
        }
    }

    /// The pin as the current schema writes it.
    pub fn into(self) -> (pin: v2::Pin)
        ensures
            pin@ == normalized_pin(self@),
    {
        v2::Pin {
            identity: self.package,
            kind: v2::Kind::RemoteSourceControl,
            location: self.repositoryURL,
            state: v2::State { revision: self.state.revision, version: self.state.version },
        }
    }
}

impl Resolved {
    /// Reads a lock file from its JSON.
    pub fn decode(tree: &Json) -> (r: Option<Resolved>)
        ensures
            option_view(r) == resolved_in(*tree),
    {
        let object = match tree.get("object") {
            Some(object) => object,
            None => return None,
        };
        let items = match object.get_items("pins") {
            Some(items) => items,
            None => return None,
        };
        let mut pins: Vec<Pin> = Vec::new();
        let mut i: usize = 0;
        while i < items.len()
            invariant
                i <= items.len(),
                pins.len() == i,
                tree.member("object"@) == Some(*object),
                object.items_of("pins"@) == Some(items@),
                forall|j: int| 0 <= j < i ==> pin_in(items@[j]) == Some(#[trigger] pins@[j]@),
            decreases items.len() - i,
        {
            match Pin::decode(&items[i]) {
                Some(pin) => pins.push(pin),
                None => return None,
            }
            i += 1;
        }
        assert forall|j: int| 0 <= j < items@.len() implies (#[trigger] pin_in(items@[j])) is Some by {
            assert(pin_in(items@[j]) == Some(pins@[j]@));
        }
        assert(pin_views(pins@) =~= pins_in(items@)->0);
        Some(Resolved { object: Object { pins } })
    }

    /// The lock file as the current schema writes it.
    pub fn into(self) -> (resolved: v2::Resolved)
        ensures
            resolved@ == normalized(self@),
    {
        let ghost old_pins = self.object.pins@;
        let mut pins: Vec<v2::Pin> = Vec::new();
        for pin in it: self.object.pins
            invariant
                it.seq() == old_pins,
                pins.len() == it.index(),
                forall|j: int| 0 <= j < it.index() ==> (#[trigger] pins@[j])@ == normalized_pin(old_pins[j]@),
        {
            pins.push(pin.into());
        }
        let resolved = v2::Resolved { pins, version: 2 };
        assert(resolved@.pins =~= normalized(self@).pins);
        resolved
    }
}

/// What reading `text` as a lock file of this schema gives, `tree` being the
/// JSON that `text` holds.
pub open spec fn parsed(tree: Option<Json>, r: Result<Resolved, ResolvedError>) -> bool {
    match tree {
        None => r matches Err(ResolvedError::Serde(DecodeError::Syntax(_))),
        Some(tree) => match resolved_in(tree) {
            None => r matches Err(ResolvedError::Serde(DecodeError::Schema)),
            Some(resolved) => r matches Ok(read) && read@ == resolved,
        },
    }
}

/// Reads a lock file of this schema.
pub fn parse(text: &str) -> (r: Result<Resolved, ResolvedError>)
    ensures
        parsed(json_of_text(text@), r),
{
    match read_json(text) {
        Err(error) => Err(ResolvedError::Serde(DecodeError::Syntax(error))),
        Ok(tree) => match Resolved::decode(&tree) {
            None => Err(ResolvedError::Serde(DecodeError::Schema)),
            Some(resolved) => Ok(resolved),
        },
    }
}

} // verus!
