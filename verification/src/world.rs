//! One tether in its world: the state of the chain together with the bodies
//! and joints it is made of, and the steps that each simulation tick runs.

use vstd::prelude::*;
use crate::bodies::{body_at, issued, position_of, Body, BodyHandle, BodyKind, BodyRegistry};
use crate::chain::ChainInfo;
use crate::geometry::{distance, euclidean_distance, midpoint, midpoint_of, Vector3};
use crate::joints::{edge_at, edges_into, retargeted, JointDirectory, JointEdge, JointHandle};
use crate::laws::law_splice_atomic;

verus! {

/// What a deployment did: the stake it drove in at `position`, and the
/// joint that ties the stake to `target`.
#[derive(Clone, Copy, Debug, PartialEq, Eq, Structural)]
pub struct Deployment {
    pub stake: BodyHandle,
    pub position: Vector3,
    pub target: BodyHandle,
    pub final_joint: JointHandle,
}

/// What a splice did: the segment it made at `position`, the joint whose
/// far end it moved from the target to that segment, and the new joint that
/// ties the segment to the target.
#[derive(Clone, Copy, Debug, PartialEq, Eq, Structural)]
pub struct Splice {
    pub segment: BodyHandle,
    pub position: Vector3,
    pub retargeted_joint: JointHandle,
    pub final_joint: JointHandle,
}

/// What one tick is given: the body to tie the tether to, if the tether's
/// trigger was pulled since the tick before, and the microseconds that have
/// passed since then.
#[derive(Clone, Copy, Debug, PartialEq, Eq, Structural)]
pub struct TickInput {
    pub trigger: Option<BodyHandle>,
    pub elapsed: u64,
}

/// What one tick did.
#[derive(Clone, Copy, Debug, PartialEq, Eq, Structural)]
pub struct TickReport {
    pub deployment: Option<Deployment>,
    pub splice: Option<Splice>,
}

/// Something that happens to a tether's world: a tick of the simulation,
/// or a change that the world makes to its bodies between two ticks.
#[derive(Clone, Copy, Debug, PartialEq, Eq, Structural)]
pub enum Event {
    Tick(TickInput),
    BodyAdded { position: Vector3, kind: BodyKind },
    BodyMoved { handle: BodyHandle, position: Vector3 },
    BodyRemoved { handle: BodyHandle },
}

/// In `joints`, the edge at `k` ends in the body where the edge after it
/// begins.
pub open spec fn linked(joints: Seq<Option<JointEdge>>, k: int) -> bool {
    joints[k].unwrap().body_b == joints[k + 1].unwrap().body_a
}

/// A tether and its world as values: the state of the chain, every body
/// ever created, and every joint ever created.
pub struct TetherView {
    pub chain_info: ChainInfo,
    pub bodies: Seq<Option<Body>>,
    pub joints: Seq<Option<JointEdge>>,
}

impl TetherView {
    /// A tether that has not been deployed, in a world without bodies.
    pub open spec fn idle(chain_info: ChainInfo) -> TetherView {
        TetherView { chain_info, bodies: Seq::empty(), joints: Seq::empty() }
    }

    /// The growing end of the chain.
    pub open spec fn anchor(self) -> BodyHandle {
        self.chain_info.anchor_handle.unwrap()
    }

    /// The body that the chain follows.
    pub open spec fn target(self) -> BodyHandle {
        self.chain_info.target_handle.unwrap()
    }

    /// The edge from the growing end to the target.
    pub open spec fn last_joint(self) -> JointHandle {
        self.chain_info.final_joint.unwrap()
    }

    /// The body in which the joint at `k` begins: the stake for the first
    /// joint, a segment for every other.
    pub open spec fn link(self, k: int) -> BodyHandle {
        self.joints[k].unwrap().body_a
    }

    /// The chain of a deployed tether is whole. Its joints are all there
    /// and run, each from where the one before it ends, from the stake to
    /// the growing end and from there to the target; there is one joint
    /// more than there are segments; no two of them begin in the same
    /// body, and none in the target; and the last of them is the only one
    /// that ends in the target.
    pub open spec fn chain_whole(self) -> bool {
        &&& self.chain_info.anchor_handle.is_some()
        &&& self.chain_info.target_handle.is_some()
        &&& self.chain_info.final_joint.is_some()
        &&& issued(self.bodies, self.anchor())
        &&& issued(self.bodies, self.target())
        &&& self.anchor() != self.target()
        &&& self.joints.len() == self.chain_info.segment_count + 1
        &&& self.last_joint().index == self.chain_info.segment_count
        &&& forall|k: int| 0 <= k < self.joints.len() ==> (#[trigger] self.joints[k]).is_some()
        &&& forall|k: int|
            0 <= k < self.joints.len() ==> ((#[trigger] self.joints[k]).unwrap().body_b
                == self.target() <==> k == self.last_joint().index)
        &&& self.joints[self.last_joint().index as int].unwrap().body_a == self.anchor()
        &&& forall|k: int| 0 <= k < self.last_joint().index ==> #[trigger] linked(self.joints, k)
        &&& forall|k: int|
            0 <= k < self.joints.len() ==> issued(self.bodies, #[trigger] self.link(k))
                && self.link(k) != self.target()
        &&& forall|i: int, j: int|
            0 <= i < j < self.joints.len() ==> #[trigger] self.link(i) != #[trigger] self.link(j)
    }

    /// What holds of a tether and its world at all times.
    pub open spec fn wf(self) -> bool {
        &&& self.chain_info.wf()
        &&& self.bodies.len() <= usize::MAX
        &&& self.joints.len() <= usize::MAX
        &&& if self.chain_info.deployed {
            self.chain_whole()
        } else {
            &&& self.joints.len() == 0
            &&& self.chain_info.anchor_handle.is_none()
            &&& self.chain_info.target_handle.is_none()
            &&& self.chain_info.final_joint.is_none()
        }
    }

    /// The handle that the next body to be created will get.
    pub open spec fn next_body(self) -> BodyHandle {
        BodyHandle { index: self.bodies.len() as usize }
    }

    /// The handle that the next joint to be created will get.
    pub open spec fn next_joint(self) -> JointHandle {
        JointHandle { index: self.joints.len() as usize }
    }

    /// The world can hold one body more.
    pub open spec fn room_for_body(self) -> bool {
        self.bodies.len() < usize::MAX
    }

    /// The world can hold one joint more.
    pub open spec fn room_for_joint(self) -> bool {
        self.joints.len() < usize::MAX
    }

    /// This world with one body more, if it can hold it.
    pub open spec fn with_body(self, position: Vector3, kind: BodyKind) -> TetherView {
        if self.room_for_body() {
            TetherView { bodies: self.bodies.push(Some(Body { position, kind })), ..self }
        } else {
            self
        }
    }

    /// This world with the body that `handle` names moved to `position`.
    /// A body that is gone moves nothing.
    pub open spec fn with_body_at(self, handle: BodyHandle, position: Vector3) -> TetherView {
        match body_at(self.bodies, handle) {
            Some(body) => TetherView {
                bodies: self.bodies.update(
                    handle.index as int,
                    Some(Body { position, kind: body.kind }),
                ),
                ..self
            },
            None => self,
        }
    }

    /// This world without the body that `handle` names. The joints that
    /// held it stay in the directory.
    pub open spec fn without_body(self, handle: BodyHandle) -> TetherView {
        if body_at(self.bodies, handle).is_some() {
            TetherView { bodies: self.bodies.update(handle.index as int, None), ..self }
        } else {
            self
        }
    }

    /// This world after `elapsed` microseconds have passed.
    pub open spec fn after(self, elapsed: u64) -> TetherView {
        TetherView { chain_info: self.chain_info.after(elapsed), ..self }
    }

    /// The trigger deploys the tether: it is pulled, the tether is not
    /// deployed yet, the body to tie it to is there, and the world can hold
    /// the stake and its joint.
    pub open spec fn can_deploy(self, trigger: Option<BodyHandle>) -> bool {
        &&& trigger matches Some(player)
        &&& !self.chain_info.deployed
        &&& body_at(self.bodies, player).is_some()
        &&& self.room_for_body()
        &&& self.room_for_joint()
    }

    /// What the trigger does, if anything.
    pub open spec fn deployment(self, trigger: Option<BodyHandle>) -> Option<Deployment> {
        if self.can_deploy(trigger) {
            Some(
                Deployment {
                    stake: self.next_body(),
                    position: position_of(self.bodies, trigger.unwrap()).unwrap(),
                    target: trigger.unwrap(),
                    final_joint: self.next_joint(),
                },
            )
        } else {
            None
        }
    }

    /// This world after the trigger. A deployment drives a stake in where
    /// the player stands and ties the two with one joint; the stake is the
    /// first anchor and the player the target. Otherwise nothing changes.
    pub open spec fn deploy(self, trigger: Option<BodyHandle>) -> TetherView {
        match self.deployment(trigger) {
            Some(deployment) => TetherView {
                chain_info: ChainInfo {
                    anchor_handle: Some(deployment.stake),
                    target_handle: Some(deployment.target),
                    ..self.chain_info
                }.with_stake(deployment.final_joint),
                bodies: self.bodies.push(
                    Some(Body { position: deployment.position, kind: BodyKind::Static }),
                ),
                joints: self.joints.push(
                    Some(JointEdge::stake_link(deployment.stake, deployment.target)),
                ),
            },
            None => self,
        }
    }

    /// This world after the distance between anchor and target has been
    /// measured. Where either of them is gone, or the tether has none yet,
    /// the last measurement stands.
    pub open spec fn measure(self) -> TetherView {
        if self.chain_info.anchor_handle.is_some() && self.chain_info.target_handle.is_some()
            && position_of(self.bodies, self.anchor()).is_some() && position_of(
            self.bodies,
            self.target(),
        ).is_some() {
            TetherView {
                chain_info: ChainInfo {
                    distance_to_target: euclidean_distance(
                        position_of(self.bodies, self.anchor()).unwrap(),
                        position_of(self.bodies, self.target()).unwrap(),
                    ) as u64,
                    ..self.chain_info
                },
                ..self
            }
        } else {
            self
        }
    }

    /// A splice takes place: the policy asks for one, anchor, target and
    /// the joint between them are all there, and the world can hold the
    /// segment and its joint.
    pub open spec fn can_extend(self) -> bool {
        &&& self.chain_info.may_extend()
        &&& self.chain_info.final_joint.is_some()
        &&& position_of(self.bodies, self.anchor()).is_some()
        &&& position_of(self.bodies, self.target()).is_some()
        &&& edge_at(self.joints, self.last_joint()).is_some()
        &&& self.room_for_body()
        &&& self.room_for_joint()
    }

    /// What the splice does, if it takes place.
    pub open spec fn splice(self) -> Option<Splice> {
        if self.can_extend() {
            Some(
                Splice {
                    segment: self.next_body(),
                    position: midpoint(
                        position_of(self.bodies, self.anchor()).unwrap(),
                        position_of(self.bodies, self.target()).unwrap(),
                    ),
                    retargeted_joint: self.last_joint(),
                    final_joint: self.next_joint(),
                },
            )
        } else {
            None
        }
    }

    /// This world after the splice step. A splice makes a segment halfway
    /// between anchor and target, moves the far end of the anchor's joint
    /// from the target to the segment, ties the segment to the target with
    /// a new joint, and makes the segment the anchor. Otherwise nothing
    /// changes.
    pub open spec fn extend(self) -> TetherView {
        match self.splice() {
            Some(splice) => TetherView {
                chain_info: self.chain_info.with_segment(splice.segment, splice.final_joint),
                bodies: self.bodies.push(
                    Some(Body { position: splice.position, kind: BodyKind::Dynamic }),
                ),
                joints: self.joints.update(
                    splice.retargeted_joint.index as int,
                    Some(
                        retargeted(
                            edge_at(self.joints, splice.retargeted_joint).unwrap(),
                            splice.segment,
                        ),
                    ),
                ).push(Some(JointEdge::segment_link(splice.segment, self.target()))),
            },
            None => self,
        }
    }

    /// What one tick reports.
    pub open spec fn report(self, input: TickInput) -> TickReport {
        TickReport {
            deployment: self.after(input.elapsed).deployment(input.trigger),
            splice: self.after(input.elapsed).deploy(input.trigger).measure().splice(),
        }
    }

    /// This world after one tick: time passes, then the trigger, then the
    /// measurement, then the splice.
    pub open spec fn tick(self, input: TickInput) -> TetherView {
        self.after(input.elapsed).deploy(input.trigger).measure().extend()
    }

    /// The distance that the tick on `input` measures, and that its splice
    /// step goes by.
    pub open spec fn measured_distance(self, input: TickInput) -> u64 {
        self.after(input.elapsed).deploy(input.trigger).measure().chain_info.distance_to_target
    }

    /// This world after `event`.
    pub open spec fn apply(self, event: Event) -> TetherView {
        match event {
            Event::Tick(input) => self.tick(input),
            Event::BodyAdded { position, kind } => self.with_body(position, kind),
            Event::BodyMoved { handle, position } => self.with_body_at(handle, position),
            Event::BodyRemoved { handle } => self.without_body(handle),
        }
    }

    /// This world after `events`, the first of them first.
    pub open spec fn run(self, events: Seq<Event>) -> TetherView
        decreases events.len(),
    {
        if events.len() == 0 {
            self
        } else {
            self.run(events.drop_last()).apply(events.last())
        }
    }

    /// This world after the trigger has been pulled once for each of
    /// `players`, the first of them first.
    pub open spec fn pull(self, players: Seq<BodyHandle>) -> TetherView
        decreases players.len(),
    {
        if players.len() == 0 {
            self
        } else {
            self.pull(players.drop_last()).deploy(Some(players.last()))
        }
    }
}

/// A tether and the world it lives in.
pub struct Tether {
    chain_info: ChainInfo,
    bodies: BodyRegistry,
    joints: JointDirectory,
}

impl View for Tether {
    type V = TetherView;

    closed spec fn view(&self) -> TetherView {
        TetherView { chain_info: self.chain_info, bodies: self.bodies@, joints: self.joints@ }
    }
}

impl Tether {
    /// What holds of a tether at all times.
    pub open spec fn wf(&self) -> bool {
        self@.wf()
    }

    /// A tether that has not been deployed, in a world without bodies. It
    /// may grow to `max_segments` segments, one whenever the target is more
    /// than `distance_threshold` millimetres from the anchor, and, if
    /// `cooldown` is given, no sooner than so many microseconds after the
    /// segment before.
    pub fn new(max_segments: u32, distance_threshold: u64, cooldown: Option<u64>) -> (tether: Self)
        ensures
            tether.wf(),
            tether@ == TetherView::idle(ChainInfo::idle(max_segments, distance_threshold, cooldown)),
    {
        Tether {
            chain_info: ChainInfo::new(max_segments, distance_threshold, cooldown),
            bodies: BodyRegistry::new(),
            joints: JointDirectory::new(),
        }
    }

    /// The state of the chain.
    pub fn chain_info(&self) -> (info: ChainInfo)
        ensures
            info == self@.chain_info,
    {
        self.chain_info
    }

    /// The bodies of the world.
    pub fn bodies(&self) -> (bodies: &BodyRegistry)
        ensures
            bodies@ == self@.bodies,
    {
        &self.bodies
    }

    /// The joints of the world.
    pub fn joints(&self) -> (joints: &JointDirectory)
        ensures
            joints@ == self@.joints,
    {
        &self.joints
    }

    /// Puts a body into the world that the tether does not make itself,
    /// such as the player, and hands out its handle; `None`, and nothing
    /// changes, where the world cannot hold another body.
    pub fn add_body(&mut self, position: Vector3, kind: BodyKind) -> (handle: Option<BodyHandle>)
        requires
            old(self).wf(),
        ensures
            final(self).wf(),
            handle == if old(self)@.room_for_body() {
                Some(old(self)@.next_body())
            } else {
                None
            },
            final(self)@ == old(self)@.with_body(position, kind),
    {
        proof {
            lemma_with_body_keeps_wf(self@, position, kind);
        }
        if self.bodies.len() < usize::MAX {
            Some(self.bodies.create_body(position, kind))
        } else {
            None
        }
    }

    /// Records that a body has moved. Returns whether the body was there.
    pub fn move_body(&mut self, handle: BodyHandle, position: Vector3) -> (moved: bool)
        requires
            old(self).wf(),
        ensures
            final(self).wf(),
            moved == body_at(old(self)@.bodies, handle).is_some(),
            final(self)@ == old(self)@.with_body_at(handle, position),
    {
        proof {
            lemma_with_body_at_keeps_wf(self@, handle, position);
        }
        self.bodies.set_transform(handle, position)
    }

    /// Records that a body has left the world. Returns whether the body was
    /// there.
    pub fn remove_body(&mut self, handle: BodyHandle) -> (removed: bool)
        requires
            old(self).wf(),
        ensures
            final(self).wf(),
            removed == body_at(old(self)@.bodies, handle).is_some(),
            final(self)@ == old(self)@.without_body(handle),
    {
        proof {
            lemma_without_body_keeps_wf(self@, handle);
        }
        self.bodies.remove_body(handle)
    }

    /// Lets `elapsed` microseconds pass.
    pub fn advance(&mut self, elapsed: u64)
        requires
            old(self).wf(),
        ensures
            final(self).wf(),
            final(self)@ == old(self)@.after(elapsed),
    {
        proof {
            lemma_after_keeps_wf(self@, elapsed);
        }
        self.chain_info.advance(elapsed);
    }

    /// The deployment trigger. `trigger` names the player if the trigger
    /// was pulled. If it was, the tether is not deployed yet and the player
    /// is there, drives a stake in where the player stands and ties the two
    /// with one joint. Otherwise does nothing.
    pub fn deploy_stake(&mut self, trigger: Option<BodyHandle>) -> (outcome: Option<Deployment>)
        requires
            old(self).wf(),
        ensures
            final(self).wf(),
            outcome == old(self)@.deployment(trigger),
            final(self)@ == old(self)@.deploy(trigger),
            outcome.is_none() ==> final(self)@ == old(self)@,
    {
        proof {
            lemma_deploy_keeps_wf(self@, trigger);
        }
        if self.chain_info.deployed || self.bodies.len() == usize::MAX || self.joints.len()
            == usize::MAX {
            return None;
        }
        match trigger {
            Some(player) => match self.bodies.get_transform(player) {
                Some(position) => {
                    let stake = self.bodies.create_body(position, BodyKind::Static);
                    let final_joint = self.joints.create_joint(JointEdge::for_stake(stake, player));
                    self.chain_info.anchor_handle = Some(stake);
                    self.chain_info.target_handle = Some(player);
                    self.chain_info.deploy_stake(final_joint);
                    Some(Deployment { stake, position, target: player, final_joint })
                },
                None => None,
            },
            None => None,
        }
    }

    /// The distance telemetry. Measures the distance between anchor and
    /// target, if both are there.
    pub fn handle_chain_info(&mut self)
        requires
            old(self).wf(),
        ensures
            final(self).wf(),
            final(self)@ == old(self)@.measure(),
    {
        proof {
            lemma_measure_keeps_wf(self@);
        }
        match (self.chain_info.anchor_handle, self.chain_info.target_handle) {
            (Some(anchor), Some(target)) => {
                match (self.bodies.get_transform(anchor), self.bodies.get_transform(target)) {
                    (Some(from), Some(to)) => {
                        self.chain_info.distance_to_target = distance(from, to);
                    },
                    _ => {},
                }
            },
            _ => {},
        }
    }

    /// The splice. If the policy asks for a segment and anchor, target and
    /// the joint between them are all there, splices a segment in between
    /// anchor and target. Otherwise does nothing.
    pub fn extend_chain(&mut self) -> (outcome: Option<Splice>)
        requires
            old(self).wf(),
        ensures
            final(self).wf(),
            outcome == old(self)@.splice(),
            final(self)@ == old(self)@.extend(),
            outcome.is_none() ==> final(self)@ == old(self)@,
            outcome matches Some(splice) ==> edges_into(final(self)@.joints, old(self)@.target())
                == set![splice.final_joint],
            outcome matches Some(splice) ==> edge_at(final(self)@.joints, splice.retargeted_joint)
                == Some(
                retargeted(edge_at(old(self)@.joints, splice.retargeted_joint).unwrap(), splice.segment),
            ),
            outcome matches Some(splice) ==> edge_at(final(self)@.joints, splice.final_joint)
                == Some(JointEdge::segment_link(splice.segment, old(self)@.target())),
    {
        if !self.chain_info.should_extend() || self.bodies.len() == usize::MAX
            || self.joints.len() == usize::MAX {
            return None;
        }
        match (self.chain_info.anchor_handle, self.chain_info.target_handle, self.chain_info.final_joint) {
            (Some(anchor), Some(target), Some(last)) => {
                match (
                    self.bodies.get_transform(anchor),
                    self.bodies.get_transform(target),
                    self.joints.get(last),
                ) {
                    (Some(from), Some(to), Some(_)) => {
                        let position = midpoint_of(from, to);
                        let segment = self.bodies.create_body(position, BodyKind::Dynamic);
                        self.joints.retarget_joint(last, segment);
                        let final_joint = self.joints.create_joint(
                            JointEdge::for_segment(segment, target),
                        );
                        self.chain_info.deploy_segment(segment, final_joint);
                        proof {
                            law_splice_atomic(old(self)@);
                        }
                        Some(Splice { segment, position, retargeted_joint: last, final_joint })
                    },
                    _ => None,
                }
            },
            _ => None,
        }
    }

    /// One tick of the simulation: lets the time pass, then runs the
    /// trigger, the telemetry and the splice, in that order.
    pub fn tick(&mut self, input: TickInput) -> (report: TickReport)
        requires
            old(self).wf(),
        ensures
            final(self).wf(),
            report == old(self)@.report(input),
            final(self)@ == old(self)@.tick(input),
            old(self)@.chain_info.segment_count <= final(self)@.chain_info.segment_count,
            final(self)@.chain_info.segment_count <= old(self)@.chain_info.segment_count + 1,
            final(self)@.chain_info.segment_count <= final(self)@.chain_info.max_segments,
            final(self)@.chain_info.max_segments == old(self)@.chain_info.max_segments,
    {
        self.advance(input.elapsed);
        let deployment = self.deploy_stake(input.trigger);
        self.handle_chain_info();
        let splice = self.extend_chain();
        TickReport { deployment, splice }
    }
}

impl Default for Tether {
    /// A tether with the default limits, in a world without bodies.
    fn default() -> (tether: Self)
        ensures
            tether.wf(),
            tether@ == TetherView::idle(ChainInfo::idle(
                crate::chain::DEFAULT_MAX_SEGMENTS,
                crate::chain::DEFAULT_DISTANCE_THRESHOLD,
                None,
            )),
    {
        Tether::new(crate::chain::DEFAULT_MAX_SEGMENTS, crate::chain::DEFAULT_DISTANCE_THRESHOLD, None)
    }
}

/// A change that leaves alone the joints and the ends of the chain, and
/// takes no handle back, leaves the chain whole.
pub proof fn lemma_chain_stays_whole(s: TetherView, n: TetherView)
    requires
        s.chain_whole(),
        n.joints == s.joints,
        n.bodies.len() >= s.bodies.len(),
        n.chain_info.anchor_handle == s.chain_info.anchor_handle,
        n.chain_info.target_handle == s.chain_info.target_handle,
        n.chain_info.final_joint == s.chain_info.final_joint,
        n.chain_info.segment_count == s.chain_info.segment_count,
    ensures
        n.chain_whole(),
{
    assert forall|k: int| 0 <= k < n.joints.len() implies issued(n.bodies, #[trigger] n.link(k))
        && n.link(k) != n.target() by {
        assert(n.link(k) == s.link(k));
    }
    assert forall|i: int, j: int| 0 <= i < j < n.joints.len() implies #[trigger] n.link(i)
        != #[trigger] n.link(j) by {
        assert(s.link(i) != s.link(j));
    }
}

/// A body more leaves the tether well formed.
pub proof fn lemma_with_body_keeps_wf(s: TetherView, position: Vector3, kind: BodyKind)
    requires
        s.wf(),
    ensures
        s.with_body(position, kind).wf(),
{
    if s.chain_info.deployed {
        lemma_chain_stays_whole(s, s.with_body(position, kind));
    }
}

/// A body that moves leaves the tether well formed.
pub proof fn lemma_with_body_at_keeps_wf(s: TetherView, handle: BodyHandle, position: Vector3)
    requires
        s.wf(),
    ensures
        s.with_body_at(handle, position).wf(),
{
    if s.chain_info.deployed {
        lemma_chain_stays_whole(s, s.with_body_at(handle, position));
    }
}

/// A body that goes leaves the tether well formed.
pub proof fn lemma_without_body_keeps_wf(s: TetherView, handle: BodyHandle)
    requires
        s.wf(),
    ensures
        s.without_body(handle).wf(),
{
    if s.chain_info.deployed {
        lemma_chain_stays_whole(s, s.without_body(handle));
    }
}

/// The passing of time leaves the tether well formed.
pub proof fn lemma_after_keeps_wf(s: TetherView, elapsed: u64)
    requires
        s.wf(),
    ensures
        s.after(elapsed).wf(),
{
    if s.chain_info.deployed {
        lemma_chain_stays_whole(s, s.after(elapsed));
    }
}

/// A measurement leaves the tether well formed.
pub proof fn lemma_measure_keeps_wf(s: TetherView)
    requires
        s.wf(),
    ensures
        s.measure().wf(),
{
    if s.chain_info.deployed {
        lemma_chain_stays_whole(s, s.measure());
    }
}

/// The trigger leaves the tether well formed.
pub proof fn lemma_deploy_keeps_wf(s: TetherView, trigger: Option<BodyHandle>)
    requires
        s.wf(),
    ensures
        s.deploy(trigger).wf(),
{
    if s.can_deploy(trigger) {
        let n = s.deploy(trigger);
        assert(n.joints.len() == 1);
        assert(n.joints[0] == Some(JointEdge::stake_link(s.next_body(), trigger.unwrap())));
        assert(n.link(0) == s.next_body());
    }
}

/// A splice leaves the chain whole.
pub proof fn lemma_extend_keeps_wf(s: TetherView)
    requires
        s.wf(),
    ensures
        s.extend().wf(),
{
    if s.can_extend() {
        let n = s.extend();
        let last = s.last_joint().index as int;
        assert(n.joints.len() == s.joints.len() + 1);
        assert(n.link(last + 1) == s.next_body());
        assert(n.link(last) == s.link(last));
        assert forall|k: int| 0 <= k < n.joints.len() implies (#[trigger] n.joints[k]).is_some() by {
            if k < s.joints.len() && k != last {
                assert(n.joints[k] == s.joints[k]);
            }
        }
        assert forall|k: int| 0 <= k < n.joints.len() implies ((#[trigger] n.joints[k]).unwrap().body_b
            == n.target() <==> k == n.last_joint().index) by {
            if k < s.joints.len() && k != last {
                assert(n.joints[k] == s.joints[k]);
            }
        }
        assert forall|k: int| 0 <= k < n.last_joint().index implies #[trigger] linked(n.joints, k) by {
            if k < last {
                assert(linked(s.joints, k));
                assert(n.joints[k] == s.joints[k]);
                if k + 1 < last {
                    assert(n.joints[k + 1] == s.joints[k + 1]);
                }
            }
        }
        assert forall|k: int| 0 <= k < n.joints.len() implies issued(n.bodies, #[trigger] n.link(k))
            && n.link(k) != n.target() by {
            if k <= last {
                assert(n.link(k) == s.link(k));
            }
        }
        assert forall|i: int, j: int| 0 <= i < j < n.joints.len() implies #[trigger] n.link(i)
            != #[trigger] n.link(j) by {
            assert(n.link(i) == s.link(i));
            if j <= last {
                assert(n.link(j) == s.link(j));
            }
        }
    }
}

} // verus!
