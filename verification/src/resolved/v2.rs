//! The current lock file schema: the pins as the rest of the crate uses them.

use vstd::prelude::*;
use vstd::string::*;

use crate::json::{json_of_text, read_json, Json};
use crate::resolved::{DecodeError, ResolvedError};
use crate::views::{option_view, text_view};

verus! {

/// What a pin points at.
#[derive(Debug, Hash, PartialEq, Eq, Structural, Clone, Copy)]
pub enum Kind {
    RemoteSourceControl,
    LocalSourceControl,
    BinaryTarget,
}

/// The revision a pin is held at.
#[derive(Debug, Hash, PartialEq, Eq)]
pub struct State {
    pub revision: String,
    pub version: Option<String>,
}

/// One pinned dependency.
#[derive(Debug, Hash, PartialEq, Eq)]
pub struct Pin {
    pub identity: String,
    pub kind: Kind,
    pub location: String,
    pub state: State,
}

/// A lock file: its pins and the number of its schema, which is 2 in every
/// lock file that was read.
#[derive(Debug)]
pub struct Resolved {
    pub pins: Vec<Pin>,
    pub version: u8,
}

pub ghost struct StateView {
    pub revision: Seq<char>,
    pub version: Option<Seq<char>>,
}

pub ghost struct PinView {
    pub identity: Seq<char>,
    pub kind: Kind,
    pub location: Seq<char>,
    pub state: StateView,
}

pub ghost struct ResolvedView {
    pub pins: Seq<PinView>,
    pub version: u8,
}

/// The pins of a list, each by its view.
pub open spec fn pin_views(pins: Seq<Pin>) -> Seq<PinView> {
    Seq::new(pins.len(), |i: int| pins[i]@)
}

impl View for State {
    type V = StateView;

    open spec fn view(&self) -> StateView {
        StateView { revision: self.revision@, version: text_view(self.version) }
    }
}

impl View for Pin {
    type V = PinView;

    open spec fn view(&self) -> PinView {
        PinView {
            identity: self.identity@,
            kind: self.kind,
            location: self.location@,
            state: self.state@,
        }
    }
}

impl View for Resolved {
    type V = ResolvedView;

    open spec fn view(&self) -> ResolvedView {
        ResolvedView { pins: pin_views(self.pins@), version: self.version }
    }
}

impl Clone for State {
    fn clone(&self) -> (copy: Self)
        ensures
            copy == *self,
    {
        let version = match &self.version {
            Some(text) => Some(text.clone()),
            None => None,
        };
        State { revision: self.revision.clone(), version }
    }
}

impl Clone for Pin {
    fn clone(&self) -> (copy: Self)
        ensures
            copy == *self,
    {
        Pin {
            identity: self.identity.clone(),
            kind: self.kind,
            location: self.location.clone(),
            state: self.state.clone(),
        }
    }
}

/// The kind that a lock file writes as `name`.
pub open spec fn kind_named(name: Seq<char>) -> Option<Kind> {
    if name == "remoteSourceControl"@ {
        Some(Kind::RemoteSourceControl)
    } else if name == "localSourceControl"@ {
        Some(Kind::LocalSourceControl)
    } else if name == "binaryTarget"@ {
        Some(Kind::BinaryTarget)
    } else {
        None
    }
}

/// The state that `tree` holds: a `revision`, and a `version` that need not
/// be there.
pub open spec fn state_in(tree: Json) -> Option<StateView> {
    match (tree.text_of("revision"@), tree.optional_text_of("version"@)) {
        (Some(revision), Some(version)) => Some(StateView { revision, version }),
        _ => None,
    }
}

/// The pin that `tree` holds: an `identity`, a `kind`, a `location` and a
/// `state`.
pub open spec fn pin_in(tree: Json) -> Option<PinView> {
    match (tree.text_of("identity"@), tree.text_of("kind"@), tree.text_of("location"@), tree.member(
        "state"@,
    )) {
        (Some(identity), Some(kind), Some(location), Some(state)) => match (
            kind_named(kind),
            state_in(state),
        ) {
            (Some(kind), Some(state)) => Some(PinView { identity, kind, location, state }),
            _ => None,
        },
        _ => None,
    }
}

/// The pins that `items` hold, where each of them holds one.
pub open spec fn pins_in(items: Seq<Json>) -> Option<Seq<PinView>> {
    if forall|i: int| 0 <= i < items.len() ==> (#[trigger] pin_in(items[i])) is Some {
        Some(Seq::new(items.len(), |i: int| pin_in(items[i])->0))
    } else {
        None
    }
}

/// The lock file that `tree` holds: a list of `pins`, and the `version` 2.
/// A document under any other version is none of this schema.
pub open spec fn resolved_in(tree: Json) -> Option<ResolvedView> {
    match (tree.items_of("pins"@), tree.member("version"@)) {
        (Some(items), Some(Json::Number(Some(version)))) => match pins_in(items) {
            Some(pins) if version == 2 => Some(ResolvedView { pins, version: 2 }),
            _ => None,
        },
        _ => None,
    }
}

/// A lock file of this schema has version 2.
pub proof fn lemma_resolved_in_version(tree: Json)
    ensures
        resolved_in(tree) matches Some(resolved) ==> resolved.version == 2,
{
}

impl Kind {
    /// The kind that a lock file writes as `name`.
    pub fn named(name: &str) -> (r: Option<Kind>)
        ensures
            r == kind_named(name@),
    {
        let name = String::from_str(name);
        if name == String::from_str("remoteSourceControl") {
            Some(Kind::RemoteSourceControl)
        } else if name == String::from_str("localSourceControl") {
            Some(Kind::LocalSourceControl)
        } else if name == String::from_str("binaryTarget") {
            Some(Kind::BinaryTarget)
        } else {
            None
        }
    }
}

impl State {
    /// Reads a state from its JSON.
    pub fn decode(tree: &Json) -> (r: Option<State>)
        ensures
            option_view(r) == state_in(*tree),
    {
        let revision = tree.get_text("revision");
        let version = tree.get_optional_text("version");
        match (revision, version) {
            (Some(revision), Some(version)) => Some(State { revision, version }),
            _ => None,
        }
    }
}

impl Pin {
    /// Reads a pin from its JSON.
    pub fn decode(tree: &Json) -> (r: Option<Pin>)
        ensures
            option_view(r) == pin_in(*tree),
    {
        let identity = tree.get_text("identity");
        let kind = tree.get_text("kind");
        let location = tree.get_text("location");
        let state = tree.get("state");
        match (identity, kind, location, state) {
            (Some(identity), Some(kind), Some(location), Some(state)) => {
                match (Kind::named(kind.as_str()), State::decode(state)) {
                    (Some(kind), Some(state)) => Some(Pin { identity, kind, location, state }),
                    _ => None,
                }
            },
            _ => None,
        }
    }
}

impl Resolved {
    /// Reads a lock file from its JSON.
    pub fn decode(tree: &Json) -> (r: Option<Resolved>)
        ensures
            option_view(r) == resolved_in(*tree),
            r matches Some(resolved) ==> resolved.version == 2,
    {
        let items = match tree.get_items("pins") {
            Some(items) => items,
            None => return None,
        };
        let version: u8 = match tree.get("version") {
            Some(Json::Number(Some(version))) => {
                if *version == 2 {
                    2
                } else {
                    return None;
                }
            },
            _ => return None,
        };
        let mut pins: Vec<Pin> = Vec::new();
        let mut i: usize = 0;
        while i < items.len()
            invariant
                i <= items.len(),
                pins.len() == i,
                tree.items_of("pins"@) == Some(items@),
                version == 2,
                tree.member("version"@) == Some(Json::Number(Some(2u64))),
                forall|j: int| 0 <= j < i ==> pin_in(items@[j]) == Some(#[trigger] pins@[j]@),
            decreases items.len() - i,
        {
            match Pin::decode(&items[i]) {
                Some(pin) => pins.push(pin),
                None => return None,
            }
            i += 1;
        }
        assert forall|j: int| 0 <= j < items@.len() implies (#[trigger] pin_in(items@[j])) is Some by {
            assert(pin_in(items@[j]) == Some(pins@[j]@));
        }
        assert(pin_views(pins@) =~= pins_in(items@)->0);
        Some(Resolved { pins, version })
    }
}

/// What reading `text` as a lock file of this schema gives, `tree` being the
/// JSON that `text` holds.
pub open spec fn parsed(tree: Option<Json>, r: Result<Resolved, ResolvedError>) -> bool {
    match tree {
        None => r matches Err(ResolvedError::Serde(DecodeError::Syntax(_))),
        Some(tree) => match resolved_in(tree) {
            None => r matches Err(ResolvedError::Serde(DecodeError::Schema)),
            Some(resolved) => r matches Ok(read) && read@ == resolved,
        },
    }
}

/// Reads a lock file of this schema.
pub fn parse(text: &str) -> (r: Result<Resolved, ResolvedError>)
    ensures
        parsed(json_of_text(text@), r),
        r matches Ok(resolved) ==> resolved.version == 2,
{
    match read_json(text) {
        Err(error) => Err(ResolvedError::Serde(DecodeError::Syntax(error))),
        Ok(tree) => match Resolved::decode(&tree) {
            None => Err(ResolvedError::Serde(DecodeError::Schema)),
            Some(resolved) => Ok(resolved),
        },
    }
}

} // verus!
