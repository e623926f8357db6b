//! The body registry: every rigid body the simulation knows, addressed by
//! handles that are never handed out twice.

use vstd::prelude::*;
use crate::geometry::Vector3;

verus! {

/// Names one body of a [`BodyRegistry`]. A handle stays valid as a name for
/// ever; the body it names may be gone.
#[derive(Clone, Copy, Debug, PartialEq, Eq, Structural)]
pub struct BodyHandle {
    pub index: usize,
}

/// How the solver treats a body: fixed in the world, or free to move.
#[derive(Clone, Copy, Debug, PartialEq, Eq, Structural)]
pub enum BodyKind {
    Static,
    Dynamic,
}

/// What the registry records of one body.
#[derive(Clone, Copy, Debug, PartialEq, Eq, Structural)]
pub struct Body {
    pub position: Vector3,
    pub kind: BodyKind,
}

/// The body that `handle` names among `bodies`, if it is still there.
pub open spec fn body_at(bodies: Seq<Option<Body>>, handle: BodyHandle) -> Option<Body> {
    if handle.index < bodies.len() {
        bodies[handle.index as int]
    } else {
        None
    }
}

/// Where the body that `handle` names is, if it is still there.
pub open spec fn position_of(bodies: Seq<Option<Body>>, handle: BodyHandle) -> Option<Vector3> {
    match body_at(bodies, handle) {
        Some(body) => Some(body.position),
        None => None,
    }
}

/// `handle` has been handed out by a registry that holds `bodies`.
pub open spec fn issued(bodies: Seq<Option<Body>>, handle: BodyHandle) -> bool {
    handle.index < bodies.len()
}

/// The bodies of a simulation. Its view is the sequence of everything ever
/// created, in order of creation, with `None` in the place of a body that
/// has been removed; a handle is an index into that sequence.
pub struct BodyRegistry {
    slots: Vec<Option<Body>>,
}

impl View for BodyRegistry {
    type V = Seq<Option<Body>>;

    closed spec fn view(&self) -> Seq<Option<Body>> {
        self.slots@
    }
}

impl BodyRegistry {
    /// An empty registry.
    pub fn new() -> (registry: Self)
        ensures
            registry@ == Seq::<Option<Body>>::empty(),
    {
        BodyRegistry { slots: Vec::new() }
    }

    /// The number of handles handed out so far.
    pub fn len(&self) -> (n: usize)
        ensures
            n == self@.len(),
    {
        self.slots.len()
    }

    /// Adds a body and hands out the handle that names it from now on. The
    /// handle is new: it named nothing before, dead or alive.
    pub fn create_body(&mut self, position: Vector3, kind: BodyKind) -> (handle: BodyHandle)
        ensures
            handle.index == old(self)@.len(),
            final(self)@ == old(self)@.push(Some(Body { position, kind })),
    {
        let index = self.slots.len();
        self.slots.push(Some(Body { position, kind }));
        BodyHandle { index }
    }

    /// Looks a body up.
    pub fn get(&self, handle: BodyHandle) -> (body: Option<Body>)
        ensures
            body == body_at(self@, handle),
    {
        if handle.index < self.slots.len() {
            self.slots[handle.index]
        } else {
            None
        }
    }

    /// Looks up where a body is; `None` for a body that is gone.
    pub fn get_transform(&self, handle: BodyHandle) -> (position: Option<Vector3>)
        ensures
            position == position_of(self@, handle),
    {
        match self.get(handle) {
            Some(body) => Some(body.position),
            None => None,
        }
    }

    /// Records that a body has moved. Returns whether the body was there; a
    /// registry that does not hold it is left as it was.
    pub fn set_transform(&mut self, handle: BodyHandle, position: Vector3) -> (moved: bool)
        ensures
            moved == body_at(old(self)@, handle).is_some(),
            moved ==> final(self)@ == old(self)@.update(
                handle.index as int,
                Some(Body { position, kind: body_at(old(self)@, handle).unwrap().kind }),
            ),
            !moved ==> final(self)@ == old(self)@,
    {
        match self.get(handle) {
            Some(body) => {
                self.slots.set(handle.index, Some(Body { position, kind: body.kind }));
                true
            },
            None => false,
        }
    }

    /// Removes a body. Its handle names nothing from now on. Returns whether
    /// the body was there.
    pub fn remove_body(&mut self, handle: BodyHandle) -> (removed: bool)
        ensures
            removed == body_at(old(self)@, handle).is_some(),
            removed ==> final(self)@ == old(self)@.update(handle.index as int, None),
            !removed ==> final(self)@ == old(self)@,
    {
        match self.get(handle) {
            Some(_) => {
                self.slots.set(handle.index, None);
                true
            },
            None => false,
        }
    }
}

} // verus!
