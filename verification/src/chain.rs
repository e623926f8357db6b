//! The state of one tether and the policy that decides when it grows.

use vstd::prelude::*;
use crate::bodies::BodyHandle;
use crate::cooldown::Cooldown;
use crate::joints::JointHandle;

verus! {

/// The number of segments a tether may grow unless told otherwise.
pub const DEFAULT_MAX_SEGMENTS: u32 = 10;

/// The distance, in millimetres, beyond which a tether grows unless told
/// otherwise.
pub const DEFAULT_DISTANCE_THRESHOLD: u64 = 250;

/// The state of one tether.
///
/// Distances are in millimetres. `anchor_handle` names the growing end of
/// the chain, `target_handle` the body that the chain follows, and
/// `final_joint` the edge that runs from the one to the other.
#[derive(Clone, Copy, Debug, PartialEq, Eq, Structural)]
pub struct ChainInfo {
    pub deployed: bool,
    pub segment_count: u32,
    pub max_segments: u32,
    pub distance_to_target: u64,
    pub distance_threshold: u64,
    pub final_joint: Option<JointHandle>,
    pub anchor_handle: Option<BodyHandle>,
    pub target_handle: Option<BodyHandle>,
    pub spawn_cooldown: Option<Cooldown>,
}

impl ChainInfo {
    /// The state of a tether that has not been deployed.
    pub open spec fn idle(max_segments: u32, distance_threshold: u64, cooldown: Option<u64>) -> ChainInfo {
        ChainInfo {
            deployed: false,
            segment_count: 0,
            max_segments,
            distance_to_target: 0,
            distance_threshold,
            final_joint: None,
            anchor_handle: None,
            target_handle: None,
            spawn_cooldown: match cooldown {
                Some(duration) => Some(Cooldown::started(duration)),
                None => None,
            },
        }
    }

    /// What holds of every state a tether passes through: it never has more
    /// segments than it may, and none before it is deployed.
    pub open spec fn wf(self) -> bool {
        &&& self.segment_count <= self.max_segments
        &&& !self.deployed ==> self.segment_count == 0
    }

    /// The cooldown, where one is configured, has run out.
    pub open spec fn cooled_down(self) -> bool {
        match self.spawn_cooldown {
            Some(cooldown) => cooldown.finished(),
            None => true,
        }
    }

    /// The extension policy: the tether is to grow by one segment now.
    pub open spec fn may_extend(self) -> bool {
        &&& self.deployed
        &&& self.distance_to_target > self.distance_threshold
        &&& self.segment_count < self.max_segments
        &&& self.anchor_handle.is_some()
        &&& self.target_handle.is_some()
        &&& self.cooled_down()
    }

    /// This state after `elapsed` microseconds have passed.
    pub open spec fn after(self, elapsed: u64) -> ChainInfo {
        ChainInfo {
            spawn_cooldown: match self.spawn_cooldown {
                Some(cooldown) => Some(cooldown.advanced(elapsed)),
                None => None,
            },
            ..self
        }
    }

    /// This state once a stake has been driven in and `final_joint` ties
    /// it to the target. A tether that is deployed already stays as it is.
    pub open spec fn with_stake(self, final_joint: JointHandle) -> ChainInfo {
        if self.deployed {
            self
        } else {
            ChainInfo {
                deployed: true,
                segment_count: 0,
                final_joint: Some(final_joint),
                ..self
            }
        }
    }

    /// This state once a new segment `anchor` has been spliced in and
    /// `final_joint` ties it to the target.
    pub open spec fn with_segment(self, anchor: BodyHandle, final_joint: JointHandle) -> ChainInfo {
        ChainInfo {
            segment_count: (self.segment_count + 1) as u32,
            anchor_handle: Some(anchor),
            final_joint: Some(final_joint),
            spawn_cooldown: match self.spawn_cooldown {
                Some(cooldown) => Some(cooldown.restarted()),
                None => None,
            },
            ..self
        }
    }

    /// The state of a tether that has not been deployed. A `cooldown`, in
    /// microseconds, starts to run at once.
    pub fn new(max_segments: u32, distance_threshold: u64, cooldown: Option<u64>) -> (info: Self)
        ensures
            info == ChainInfo::idle(max_segments, distance_threshold, cooldown),
            info.wf(),
    {
        ChainInfo {
            deployed: false,
            segment_count: 0,
            max_segments,
            distance_to_target: 0,
            distance_threshold,
            final_joint: None,
            anchor_handle: None,
            target_handle: None,
            spawn_cooldown: match cooldown {
                Some(duration) => Some(Cooldown::new(duration)),
                None => None,
            },
        }
    }

    /// Decides whether the tether is to grow by one segment now.
    pub fn should_extend(&self) -> (extend: bool)
        ensures
            extend == self.may_extend(),
    {
        self.deployed && self.distance_to_target > self.distance_threshold && self.segment_count
            < self.max_segments && self.anchor_handle.is_some() && self.target_handle.is_some()
            && match self.spawn_cooldown {
            Some(cooldown) => cooldown.is_finished(),
            None => true,
        }
    }

    /// Lets `elapsed` microseconds pass.
    pub fn advance(&mut self, elapsed: u64)
        ensures
            *final(self) == old(self).after(elapsed),
    {
        match self.spawn_cooldown {
            Some(mut cooldown) => {
                cooldown.tick(elapsed);
                self.spawn_cooldown = Some(cooldown);
            },
            None => {},
        }
    }

    /// Records a splice: `anchor` is the new growing end, `final_joint` the
    /// edge from it to the target. The count of segments goes up by one and
    /// the cooldown starts again.
    pub fn deploy_segment(&mut self, anchor: BodyHandle, final_joint: JointHandle)
        requires
            old(self).may_extend(),
        ensures
            *final(self) == old(self).with_segment(anchor, final_joint),
    {
        self.anchor_handle = Some(anchor);
        self.final_joint = Some(final_joint);
        self.segment_count = self.segment_count + 1;
        match self.spawn_cooldown {
            Some(mut cooldown) => {
                cooldown.reset();
                self.spawn_cooldown = Some(cooldown);
            },
            None => {},
        }
    }

    /// Records the deployment: the tether is deployed, with no segment yet,
    /// and `final_joint` is the edge from the stake to the target. On a
    /// tether that is deployed already this does nothing.
    pub fn deploy_stake(&mut self, final_joint: JointHandle)
        ensures
            *final(self) == old(self).with_stake(final_joint),
    {
        if !self.deployed {
            self.deployed = true;
            self.segment_count = 0;
            self.final_joint = Some(final_joint);
        }
    }
}

impl Default for ChainInfo {
    /// A tether of at most ten segments that grows when the target is more
    /// than a quarter of a metre away, with no cooldown.
    fn default() -> (info: Self)
        ensures
            info == ChainInfo::idle(DEFAULT_MAX_SEGMENTS, DEFAULT_DISTANCE_THRESHOLD, None),
    {
        ChainInfo::new(DEFAULT_MAX_SEGMENTS, DEFAULT_DISTANCE_THRESHOLD, None)
    }
}

} // verus!
