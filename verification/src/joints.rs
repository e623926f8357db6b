//! The joint directory: the constraint edges between bodies.

use vstd::prelude::*;
use crate::bodies::BodyHandle;
use crate::geometry::Vector3;

verus! {

/// Names one edge of a [`JointDirectory`].
#[derive(Clone, Copy, Debug, PartialEq, Eq, Structural)]
pub struct JointHandle {
    pub index: usize,
}

/// A length-bounded constraint between two bodies. By convention `body_a`
/// is the end nearer the stake and `body_b` the end nearer the target.
/// Lengths and offsets are in millimetres, compliance in millionths.
#[derive(Clone, Copy, Debug, PartialEq, Eq, Structural)]
pub struct JointEdge {
    pub body_a: BodyHandle,
    pub body_b: BodyHandle,
    pub min_length: u64,
    pub max_length: u64,
    pub anchor_offset_a: Vector3,
    pub anchor_offset_b: Vector3,
    pub compliance: u32,
}

/// The longest a stake's joint may stretch, in millimetres.
pub const STAKE_JOINT_MAX_LENGTH: u64 = 500;

/// The compliance of a stake's joint, in millionths.
pub const STAKE_JOINT_COMPLIANCE: u32 = 1000;

/// The shortest a segment's joint may get, in millimetres.
pub const SEGMENT_JOINT_MIN_LENGTH: u64 = 300;

/// The longest a segment's joint may stretch, in millimetres.
pub const SEGMENT_JOINT_MAX_LENGTH: u64 = 500;

/// Half the length of a segment, in millimetres: how far its upper end
/// lies above its middle.
pub const SEGMENT_UPPER_END: i32 = 500;

/// How far the lower end of a segment lies above its middle: below it.
pub const SEGMENT_LOWER_END: i32 = -500;

impl JointEdge {
    /// The joint that ties a stake to the target: anything from slack to
    /// half a metre, fixed a metre up the stake and half a metre out from
    /// the target, and slightly compliant.
    pub open spec fn stake_link(stake: BodyHandle, target: BodyHandle) -> JointEdge {
        JointEdge {
            body_a: stake,
            body_b: target,
            min_length: 0,
            max_length: STAKE_JOINT_MAX_LENGTH,
            anchor_offset_a: Vector3 { x: 0, y: 1000, z: 0 },
            anchor_offset_b: Vector3 { x: 500, y: 0, z: 0 },
            compliance: STAKE_JOINT_COMPLIANCE,
        }
    }

    /// The joint that ties a segment to what follows it: between three
    /// tenths and half of a metre, fixed at the facing ends of the two, and
    /// rigid.
    pub open spec fn segment_link(segment: BodyHandle, next: BodyHandle) -> JointEdge {
        JointEdge {
            body_a: segment,
            body_b: next,
            min_length: SEGMENT_JOINT_MIN_LENGTH,
            max_length: SEGMENT_JOINT_MAX_LENGTH,
            anchor_offset_a: Vector3 { x: 0, y: SEGMENT_UPPER_END, z: 0 },
            anchor_offset_b: Vector3 { x: 0, y: SEGMENT_LOWER_END, z: 0 },
            compliance: 0,
        }
    }

    /// Makes the joint that ties a stake to the target.
    pub fn for_stake(stake: BodyHandle, target: BodyHandle) -> (edge: JointEdge)
        ensures
            edge == JointEdge::stake_link(stake, target),
    {
        JointEdge {
            body_a: stake,
            body_b: target,
            min_length: 0,
            max_length: STAKE_JOINT_MAX_LENGTH,
            anchor_offset_a: Vector3 { x: 0, y: 1000, z: 0 },
            anchor_offset_b: Vector3 { x: 500, y: 0, z: 0 },
            compliance: STAKE_JOINT_COMPLIANCE,
        }
    }

    /// Makes the joint that ties a segment to what follows it.
    pub fn for_segment(segment: BodyHandle, next: BodyHandle) -> (edge: JointEdge)
        ensures
            edge == JointEdge::segment_link(segment, next),
    {
        JointEdge {
            body_a: segment,
            body_b: next,
            min_length: SEGMENT_JOINT_MIN_LENGTH,
            max_length: SEGMENT_JOINT_MAX_LENGTH,
            anchor_offset_a: Vector3 { x: 0, y: SEGMENT_UPPER_END, z: 0 },
            anchor_offset_b: Vector3 { x: 0, y: SEGMENT_LOWER_END, z: 0 },
            compliance: 0,
        }
    }
}

/// The edge that `handle` names among `joints`, if it is still there.
pub open spec fn edge_at(joints: Seq<Option<JointEdge>>, handle: JointHandle) -> Option<JointEdge> {
    if handle.index < joints.len() {
        joints[handle.index as int]
    } else {
        None
    }
}

/// `handle` names an edge of `joints` that ends in `body`.
pub open spec fn ends_in(joints: Seq<Option<JointEdge>>, handle: JointHandle, body: BodyHandle) -> bool {
    edge_at(joints, handle) matches Some(edge) && edge.body_b == body
}

/// The edges of `joints` that end in `body`.
pub open spec fn edges_into(joints: Seq<Option<JointEdge>>, body: BodyHandle) -> Set<JointHandle> {
    Set::new(|handle: JointHandle| ends_in(joints, handle, body))
}

/// `handle` names an edge of `joints` that begins in `body`.
pub open spec fn begins_in(joints: Seq<Option<JointEdge>>, handle: JointHandle, body: BodyHandle) -> bool {
    edge_at(joints, handle) matches Some(edge) && edge.body_a == body
}

/// The edges of `joints` that begin in `body`.
pub open spec fn edges_from(joints: Seq<Option<JointEdge>>, body: BodyHandle) -> Set<JointHandle> {
    Set::new(|handle: JointHandle| begins_in(joints, handle, body))
}

/// `edge` with its far end moved to `body`.
pub open spec fn retargeted(edge: JointEdge, body: BodyHandle) -> JointEdge {
    JointEdge { body_b: body, ..edge }
}

/// The constraint edges of a simulation. Its view is the sequence of every
/// edge ever created, in order of creation, with `None` in the place of an
/// edge that has been removed; a handle is an index into that sequence.
pub struct JointDirectory {
    slots: Vec<Option<JointEdge>>,
}

impl View for JointDirectory {
    type V = Seq<Option<JointEdge>>;

    closed spec fn view(&self) -> Seq<Option<JointEdge>> {
        self.slots@
    }
}

impl JointDirectory {
    /// An empty directory.
    pub fn new() -> (directory: Self)
        ensures
            directory@ == Seq::<Option<JointEdge>>::empty(),
    {
        JointDirectory { slots: Vec::new() }
    }

    /// The number of handles handed out so far.
    pub fn len(&self) -> (n: usize)
        ensures
            n == self@.len(),
    {
        self.slots.len()
    }

    /// Adds an edge and hands out the handle that names it from now on.
    pub fn create_joint(&mut self, edge: JointEdge) -> (handle: JointHandle)
        ensures
            handle.index == old(self)@.len(),
            final(self)@ == old(self)@.push(Some(edge)),
    {
        let index = self.slots.len();
        self.slots.push(Some(edge));
        JointHandle { index }
    }

    /// Looks an edge up.
    pub fn get(&self, handle: JointHandle) -> (edge: Option<JointEdge>)
        ensures
            edge == edge_at(self@, handle),
    {
        if handle.index < self.slots.len() {
            self.slots[handle.index]
        } else {
            None
        }
    }

    /// Moves the far end of an edge to another body, in place: no other
    /// field of the edge changes, and no other edge. Returns whether the
    /// edge was there.
    pub fn retarget_joint(&mut self, handle: JointHandle, new_body_b: BodyHandle) -> (found: bool)
        ensures
            found == edge_at(old(self)@, handle).is_some(),
            found ==> final(self)@ == old(self)@.update(
                handle.index as int,
                Some(retargeted(edge_at(old(self)@, handle).unwrap(), new_body_b)),
            ),
            !found ==> final(self)@ == old(self)@,
    {
        match self.get(handle) {
            Some(edge) => {
                self.slots.set(handle.index, Some(JointEdge { body_b: new_body_b, ..edge }));
                true
            },
            None => false,
        }
    }

    /// Removes an edge. Returns whether the edge was there.
    pub fn remove_joint(&mut self, handle: JointHandle) -> (removed: bool)
        ensures
            removed == edge_at(old(self)@, handle).is_some(),
            removed ==> final(self)@ == old(self)@.update(handle.index as int, None),
            !removed ==> final(self)@ == old(self)@,
    {
        match self.get(handle) {
            Some(_) => {
                self.slots.set(handle.index, None);
                true
            },
            None => false,
        }
    }

    /// Lists, in order of creation, the edges that end in `body`.
    pub fn edges_into(&self, body: BodyHandle) -> (found: Vec<JointHandle>)
        ensures
            forall|handle: JointHandle|
                found@.contains(handle) <==> #[trigger] ends_in(self@, handle, body),
            forall|i: int, j: int|
                0 <= i < j < found@.len() ==> found@[i].index < found@[j].index,
    {
        let mut found: Vec<JointHandle> = Vec::new();
        let mut index: usize = 0;
        while index < self.slots.len()
            invariant
                index <= self.slots@.len(),
                forall|handle: JointHandle|
                    found@.contains(handle) <==> handle.index < index && #[trigger] ends_in(
                        self@,
                        handle,
                        body,
                    ),
                forall|i: int| 0 <= i < found@.len() ==> (#[trigger] found@[i]).index < index,
                forall|i: int, j: int|
                    0 <= i < j < found@.len() ==> found@[i].index < found@[j].index,
            decreases self.slots@.len() - index,
        {
            let here = JointHandle { index };
            let ghost before = found@;
            match self.slots[index] {
                Some(edge) => {
                    if edge.body_b == body {
                        found.push(here);
                        proof {
                            assert(found@.last() == here);
                            assert forall|handle: JointHandle|
                                found@.contains(handle) <==> handle.index < index + 1
                                    && #[trigger] ends_in(self@, handle, body) by {
                                if found@.contains(handle) {
                                    let k = choose|k: int|
                                        0 <= k < found@.len() && found@[k] == handle;
                                    if k < before.len() {
                                        assert(before[k] == handle);
                                        assert(before.contains(handle));
                                    }
                                }
                                if handle.index < index + 1 && ends_in(self@, handle, body) {
                                    if handle.index < index {
                                        assert(before.contains(handle));
                                        let k = choose|k: int|
                                            0 <= k < before.len() && before[k] == handle;
                                        assert(found@[k] == handle);
                                    } else {
                                        assert(handle == here);
                                        assert(found@[found@.len() - 1] == handle);
                                    }
                                }
                            }
                        }
                    }
                },
                None => {},
            }
            index = index + 1;
        }
        found
    }
}

} // verus!
