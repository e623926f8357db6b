//! What holds of a tether whatever happens to it.

use vstd::prelude::*;
use crate::bodies::{position_of, BodyHandle};
use crate::cooldown::Cooldown;
use crate::geometry::{
    distance_squared, euclidean_distance, lemma_distance_bounded, lemma_distance_exceeds,
};
use crate::joints::{
    begins_in, edge_at, edges_from, edges_into, ends_in, retargeted, JointEdge, JointHandle,
};
use crate::world::{
    lemma_after_keeps_wf, lemma_deploy_keeps_wf, lemma_extend_keeps_wf, lemma_measure_keeps_wf,
    lemma_with_body_at_keeps_wf, lemma_with_body_keeps_wf, lemma_without_body_keeps_wf, linked,
    Event, TetherView,
};

verus! {

/// No event breaks a tether: a world that is well formed before it is well
/// formed after it.
pub proof fn law_events_keep_wf(s: TetherView, event: Event)
    requires
        s.wf(),
    ensures
        s.apply(event).wf(),
{
    match event {
        Event::Tick(input) => {
            lemma_after_keeps_wf(s, input.elapsed);
            lemma_deploy_keeps_wf(s.after(input.elapsed), input.trigger);
            let deployed = s.after(input.elapsed).deploy(input.trigger);
            lemma_measure_keeps_wf(deployed);
            lemma_extend_keeps_wf(deployed.measure());
        },
        Event::BodyAdded { position, kind } => {
            lemma_with_body_keeps_wf(s, position, kind);
        },
        Event::BodyMoved { handle, position } => {
            lemma_with_body_at_keeps_wf(s, handle, position);
        },
        Event::BodyRemoved { handle } => {
            lemma_without_body_keeps_wf(s, handle);
        },
    }
}

/// No event takes a segment away, and none changes how many segments the
/// tether may have.
pub proof fn law_events_keep_segments(s: TetherView, event: Event)
    requires
        s.wf(),
    ensures
        s.apply(event).chain_info.max_segments == s.chain_info.max_segments,
        s.apply(event).chain_info.distance_threshold == s.chain_info.distance_threshold,
        s.chain_info.segment_count <= s.apply(event).chain_info.segment_count,
        s.apply(event).chain_info.segment_count <= s.chain_info.segment_count + 1,
{
}

/// Monotonicity. Over any run of events the number of segments never goes
/// down and never exceeds the most that the tether may have.
pub proof fn law_segment_count_monotone(s: TetherView, events: Seq<Event>)
    requires
        s.wf(),
    ensures
        s.run(events).wf(),
        s.run(events).chain_info.max_segments == s.chain_info.max_segments,
        s.run(events).chain_info.distance_threshold == s.chain_info.distance_threshold,
        s.chain_info.segment_count <= s.run(events).chain_info.segment_count,
        s.run(events).chain_info.segment_count <= s.chain_info.max_segments,
    decreases events.len(),
{
    if events.len() > 0 {
        law_segment_count_monotone(s, events.drop_last());
        law_events_keep_wf(s.run(events.drop_last()), events.last());
        law_events_keep_segments(s.run(events.drop_last()), events.last());
    }
}

/// Deployment is for good. A tether that is deployed stays deployed over
/// any run of events, and tied to the same target.
pub proof fn law_deployment_is_final(s: TetherView, events: Seq<Event>)
    requires
        s.wf(),
        s.chain_info.deployed,
    ensures
        s.run(events).chain_info.deployed,
        s.run(events).chain_info.target_handle == s.chain_info.target_handle,
    decreases events.len(),
{
    if events.len() > 0 {
        law_deployment_is_final(s, events.drop_last());
        law_segment_count_monotone(s, events.drop_last());
    }
}

/// Deployment is idempotent. On a tether that is deployed, pulling the
/// trigger again, any number of times and for whatever body, changes
/// nothing: no second stake, no second joint, the same state.
pub proof fn law_deployment_idempotent(s: TetherView, players: Seq<BodyHandle>)
    requires
        s.chain_info.deployed,
    ensures
        s.pull(players) == s,
    decreases players.len(),
{
    if players.len() > 0 {
        law_deployment_idempotent(s, players.drop_last());
    }
}

/// The first pull of the trigger that finds its player is the only one that
/// counts: it makes one stake and one joint, and the pulls after it leave
/// the world as that one left it.
pub proof fn law_one_deployment(s: TetherView, player: BodyHandle, players: Seq<BodyHandle>)
    requires
        s.wf(),
        s.can_deploy(Some(player)),
    ensures
        s.deploy(Some(player)).chain_info.deployed,
        s.deploy(Some(player)).bodies.len() == s.bodies.len() + 1,
        s.deploy(Some(player)).joints.len() == s.joints.len() + 1,
        s.deploy(Some(player)).pull(players) == s.deploy(Some(player)),
{
    law_deployment_idempotent(s.deploy(Some(player)), players);
}

/// The ticks of `events` all measure a distance within the threshold: that
/// of the event at `k`, if it is a tick, taken in the world that the events
/// before it have made.
pub open spec fn within_threshold(s: TetherView, events: Seq<Event>, k: int) -> bool {
    events[k] matches Event::Tick(input) ==> s.run(events.take(k)).measured_distance(input)
        <= s.chain_info.distance_threshold
}

/// Threshold gating. As long as no tick measures a distance beyond the
/// threshold, the tether does not grow.
pub proof fn law_threshold_gates(s: TetherView, events: Seq<Event>)
    requires
        s.wf(),
        forall|k: int| 0 <= k < events.len() ==> within_threshold(s, events, k),
    ensures
        s.run(events).chain_info.segment_count == s.chain_info.segment_count,
    decreases events.len(),
{
    if events.len() > 0 {
        let front = events.drop_last();
        assert forall|k: int| 0 <= k < front.len() implies within_threshold(s, front, k) by {
            assert(within_threshold(s, events, k));
            assert(front.take(k) == events.take(k));
        }
        law_threshold_gates(s, front);
        law_segment_count_monotone(s, front);
        assert(within_threshold(s, events, events.len() - 1));
        assert(events.take(events.len() - 1) == front);
    }
}

/// At all times after deployment exactly one edge ends in the target: the
/// edge from the growing end of the chain.
pub proof fn law_one_edge_into_target(s: TetherView)
    requires
        s.wf(),
        s.chain_info.deployed,
    ensures
        edges_into(s.joints, s.target()) == set![s.last_joint()],
        edge_at(s.joints, s.last_joint()).is_some(),
        edge_at(s.joints, s.last_joint()).unwrap().body_a == s.anchor(),
        edge_at(s.joints, s.last_joint()).unwrap().body_b == s.target(),
{
    let last = s.last_joint();
    assert(s.joints[last.index as int].is_some());
    assert(ends_in(s.joints, last, s.target()));
    assert forall|handle: JointHandle|
        edges_into(s.joints, s.target()).contains(handle) <==> set![last].contains(handle) by {
        if ends_in(s.joints, handle, s.target()) {
            assert(s.joints[handle.index as int].is_some());
            assert(handle.index == last.index);
        }
    }
    assert(edges_into(s.joints, s.target()) =~= set![last]);
}

/// The chain is a path. In a deployed tether the body in which the joint at
/// `k` begins has that one joint leaving it and, unless it is the stake,
/// one joint entering it: the joint before. Nothing enters the stake, and
/// the anchor is where the last joint begins.
pub proof fn law_chain_is_a_path(s: TetherView, k: int)
    requires
        s.wf(),
        s.chain_info.deployed,
        0 <= k < s.joints.len(),
    ensures
        edges_from(s.joints, s.link(k)) == set![JointHandle { index: k as usize }],
        k > 0 ==> edges_into(s.joints, s.link(k)) == set![JointHandle { index: (k - 1) as usize }],
        k == 0 ==> edges_into(s.joints, s.link(k)) == Set::<JointHandle>::empty(),
        s.link(k) == s.anchor() <==> k == s.last_joint().index,
{
    let body = s.link(k);
    let out = JointHandle { index: k as usize };
    assert(s.joints[k].is_some());
    assert forall|handle: JointHandle|
        edges_from(s.joints, body).contains(handle) <==> set![out].contains(handle) by {
        if begins_in(s.joints, handle, body) {
            let j = handle.index as int;
            assert(s.link(j) == body);
            if j < k {
                assert(s.link(j) != s.link(k));
            } else if k < j {
                assert(s.link(k) != s.link(j));
            }
        }
        if handle == out {
            assert(begins_in(s.joints, handle, body));
        }
    }
    assert(edges_from(s.joints, body) =~= set![out]);
    assert forall|handle: JointHandle|
        edges_into(s.joints, body).contains(handle) <==> (k > 0 && handle.index == k - 1) by {
        let j = handle.index as int;
        if ends_in(s.joints, handle, body) {
            assert(s.joints[j].is_some());
            assert(s.joints[j].unwrap().body_b != s.target());
            assert(j < s.last_joint().index);
            assert(linked(s.joints, j));
            assert(s.link(j + 1) == body);
            if j + 1 < k {
                assert(s.link(j + 1) != s.link(k));
            } else if k < j + 1 {
                assert(s.link(k) != s.link(j + 1));
            }
        }
        if k > 0 && handle.index == k - 1 {
            assert(linked(s.joints, k - 1));
            assert(s.joints[k - 1].is_some());
        }
    }
    if k > 0 {
        assert(edges_into(s.joints, body) =~= set![JointHandle { index: (k - 1) as usize }]);
    } else {
        assert(edges_into(s.joints, body) =~= Set::<JointHandle>::empty());
    }
    let last = s.last_joint().index as int;
    if k < last {
        assert(s.link(k) != s.link(last));
    }
}

/// Splice atomicity. Where a splice takes place, the edge that ran from the
/// anchor to the target runs from the anchor to the new segment afterwards,
/// otherwise as it was; a new edge runs from the new segment to the target;
/// and that new edge is then the one edge that ends in the target, as the
/// old one was before. The target stays, and the new segment is the anchor.
pub proof fn law_splice_atomic(s: TetherView)
    requires
        s.wf(),
        s.can_extend(),
    ensures
        s.splice().is_some(),
        s.extend().wf(),
        s.extend().target() == s.target(),
        s.extend().anchor() == s.splice().unwrap().segment,
        s.extend().last_joint() == s.splice().unwrap().final_joint,
        s.splice().unwrap().retargeted_joint == s.last_joint(),
        s.splice().unwrap().retargeted_joint != s.splice().unwrap().final_joint,
        s.splice().unwrap().segment != s.target(),
        edges_into(s.joints, s.target()) == set![s.splice().unwrap().retargeted_joint],
        edges_into(s.extend().joints, s.target()) == set![s.splice().unwrap().final_joint],
        edge_at(s.extend().joints, s.splice().unwrap().retargeted_joint) == Some(
            retargeted(
                edge_at(s.joints, s.splice().unwrap().retargeted_joint).unwrap(),
                s.splice().unwrap().segment,
            ),
        ),
        edge_at(s.extend().joints, s.splice().unwrap().retargeted_joint).unwrap().body_a
            == s.anchor(),
        edge_at(s.extend().joints, s.splice().unwrap().final_joint) == Some(
            JointEdge::segment_link(s.splice().unwrap().segment, s.target()),
        ),
        s.extend().joints.len() == s.joints.len() + 1,
        s.extend().bodies.len() == s.bodies.len() + 1,
        s.extend().chain_info.segment_count == s.chain_info.segment_count + 1,
        s.chain_info.spawn_cooldown matches Some(cooldown) ==> s.extend().chain_info.spawn_cooldown
            == Some(cooldown.restarted()),
{
    lemma_extend_keeps_wf(s);
    law_one_edge_into_target(s);
    law_one_edge_into_target(s.extend());
}

/// No splice takes place unless the policy asks for one: not before the
/// tether is deployed, not while the target is within the threshold, not
/// on a chain that is full, and not while the cooldown runs.
pub proof fn law_splice_needs_policy(s: TetherView)
    requires
        s.splice().is_some() || s.extend() != s,
    ensures
        s.chain_info.deployed,
        s.chain_info.distance_to_target > s.chain_info.distance_threshold,
        s.chain_info.segment_count < s.chain_info.max_segments,
        s.chain_info.cooled_down(),
{
}

/// Terminal behaviour. A tether that has all the segments it may have
/// never grows again, whatever the distance: over any run of events its
/// number of segments stays, and so does its anchor and, once it is
/// deployed, every joint of the directory.
pub proof fn law_full_chain_is_final(s: TetherView, events: Seq<Event>)
    requires
        s.wf(),
        s.chain_info.segment_count == s.chain_info.max_segments,
    ensures
        s.run(events).chain_info.segment_count == s.chain_info.segment_count,
        s.chain_info.deployed ==> s.run(events).joints == s.joints,
        s.chain_info.deployed ==> s.run(events).chain_info.deployed,
        s.chain_info.deployed ==> s.run(events).chain_info.anchor_handle
            == s.chain_info.anchor_handle,
        s.chain_info.deployed ==> s.run(events).chain_info.target_handle
            == s.chain_info.target_handle,
        s.chain_info.deployed ==> s.run(events).chain_info.final_joint
            == s.chain_info.final_joint,
    decreases events.len(),
{
    if events.len() > 0 {
        law_full_chain_is_final(s, events.drop_last());
        law_segment_count_monotone(s, events.drop_last());
    }
}

/// The microseconds that pass over `events`.
pub open spec fn elapsed_over(events: Seq<Event>) -> nat
    decreases events.len(),
{
    if events.len() == 0 {
        0
    } else {
        elapsed_over(events.drop_last()) + match events.last() {
            Event::Tick(input) => input.elapsed as nat,
            _ => 0,
        }
    }
}

/// Cooldown gating. While its cooldown has time left to run the tether does
/// not grow: over any run of events that takes less time than remains, the
/// number of segments stays, and the cooldown has counted that time down.
pub proof fn law_cooldown_gates(s: TetherView, events: Seq<Event>)
    requires
        s.wf(),
        s.chain_info.spawn_cooldown.is_some(),
        elapsed_over(events) < s.chain_info.spawn_cooldown.unwrap().remaining,
    ensures
        s.run(events).chain_info.segment_count == s.chain_info.segment_count,
        s.run(events).chain_info.spawn_cooldown == Some(
            Cooldown {
                duration: s.chain_info.spawn_cooldown.unwrap().duration,
                remaining: (s.chain_info.spawn_cooldown.unwrap().remaining - elapsed_over(
                    events,
                )) as u64,
            },
        ),
    decreases events.len(),
{
    if events.len() > 0 {
        law_cooldown_gates(s, events.drop_last());
        law_segment_count_monotone(s, events.drop_last());
    }
}

/// The distance that a tether goes by is true to where its anchor and its
/// target are: it is their distance, and it exceeds the threshold exactly
/// when the straight line between the two is longer than the threshold.
pub proof fn law_measured_distance_is_true(s: TetherView)
    requires
        s.chain_info.anchor_handle.is_some(),
        s.chain_info.target_handle.is_some(),
        position_of(s.bodies, s.anchor()).is_some(),
        position_of(s.bodies, s.target()).is_some(),
    ensures
        s.measure().chain_info.distance_to_target == euclidean_distance(
            position_of(s.bodies, s.anchor()).unwrap(),
            position_of(s.bodies, s.target()).unwrap(),
        ),
        s.measure().chain_info.distance_to_target > s.chain_info.distance_threshold
            <==> distance_squared(
            position_of(s.bodies, s.anchor()).unwrap(),
            position_of(s.bodies, s.target()).unwrap(),
        ) > s.chain_info.distance_threshold * s.chain_info.distance_threshold,
{
    let from = position_of(s.bodies, s.anchor()).unwrap();
    let to = position_of(s.bodies, s.target()).unwrap();
    lemma_distance_bounded(from, to);
    lemma_distance_exceeds(from, to, s.chain_info.distance_threshold as nat);
}

/// Missing bodies. While the anchor or the target of a deployed tether is
/// gone, nothing is measured and nothing is spliced: the step is skipped
/// and the state stays as it was.
pub proof fn law_missing_bodies_skip(s: TetherView)
    requires
        s.wf(),
        s.chain_info.deployed,
        position_of(s.bodies, s.anchor()).is_none() || position_of(s.bodies, s.target()).is_none(),
    ensures
        s.measure() == s,
        s.splice().is_none(),
        s.extend() == s,
{
}

} // verus!
