use tether::bodies::{BodyHandle, BodyKind};
use tether::geometry::Vector3;
use tether::joints::{JointEdge, JointHandle};
use tether::world::{Tether, TickInput};

fn at(x: i32, y: i32, z: i32) -> Vector3 {
    Vector3 { x, y, z }
}

/// A small, repeatable source of numbers.
fn next(seed: &mut u64) -> u64 {
    *seed = seed.wrapping_mul(6_364_136_223_846_793_005).wrapping_add(1_442_695_040_888_963_407);
    *seed >> 33
}

fn all_joints(tether: &Tether) -> Vec<Option<JointEdge>> {
    let mut edges = Vec::new();
    let mut index = 0;
    while index < tether.joints().len() {
        edges.push(tether.joints().get(JointHandle { index }));
        index += 1;
    }
    edges
}

#[test]
fn segment_count_never_goes_down_nor_over_the_cap() {
    let mut seed = 7;
    let mut tether = Tether::new(6, 250, Some(30_000));
    let player = tether.add_body(at(0, 0, 0), BodyKind::Dynamic).unwrap();
    let mut last = 0;
    for _ in 0..2_000 {
        match next(&mut seed) % 5 {
            0 => {
                let x = (next(&mut seed) % 4_000) as i32 - 2_000;
                let z = (next(&mut seed) % 4_000) as i32 - 2_000;
                tether.move_body(player, at(x, 0, z));
            },
            1 => {
                tether.add_body(at(1, 2, 3), BodyKind::Dynamic).unwrap();
            },
            2 => {
                let index = (next(&mut seed) % 40) as usize;
                if index != player.index {
                    tether.remove_body(BodyHandle { index });
                }
            },
            _ => {
                let trigger = if next(&mut seed) % 7 == 0 { Some(player) } else { None };
                let elapsed = next(&mut seed) % 20_000;
                tether.tick(TickInput { trigger, elapsed });
            },
        }
        let info = tether.chain_info();
        assert!(info.segment_count >= last);
        assert!(info.segment_count <= info.max_segments);
        assert_eq!(info.max_segments, 6);
        last = info.segment_count;
    }
    assert!(last > 0);
}

#[test]
fn deployed_tether_stays_deployed_and_keeps_its_target() {
    let mut seed = 5;
    let mut tether = Tether::new(4, 250, None);
    let player = tether.add_body(at(0, 0, 0), BodyKind::Dynamic).unwrap();
    let other = tether.add_body(at(9, 9, 9), BodyKind::Dynamic).unwrap();
    assert!(tether.deploy_stake(Some(player)).is_some());
    for _ in 0..300 {
        let x = (next(&mut seed) % 3_000) as i32;
        tether.move_body(player, at(x, 0, 0));
        if next(&mut seed) % 50 == 0 {
            tether.remove_body(player);
        }
        let trigger = if next(&mut seed) % 3 == 0 { Some(other) } else { None };
        tether.tick(TickInput { trigger, elapsed: 1_000 });
        assert!(tether.chain_info().deployed);
        assert_eq!(tether.chain_info().target_handle, Some(player));
    }
}

#[test]
fn triggers_after_the_first_change_nothing() {
    let mut once = Tether::new(10, 250, None);
    let player = once.add_body(at(5, 6, 7), BodyKind::Dynamic).unwrap();
    assert!(once.deploy_stake(Some(player)).is_some());

    let mut often = Tether::new(10, 250, None);
    let same_player = often.add_body(at(5, 6, 7), BodyKind::Dynamic).unwrap();
    assert_eq!(player, same_player);
    assert!(often.deploy_stake(Some(player)).is_some());
    for _ in 0..25 {
        assert_eq!(often.deploy_stake(Some(player)), None);
    }

    assert_eq!(often.chain_info(), once.chain_info());
    assert_eq!(all_joints(&often), all_joints(&once));
    assert_eq!(often.bodies().len(), once.bodies().len());
    assert_eq!(often.bodies().len(), 2);
    assert!(often.chain_info().deployed);
}

#[test]
fn tether_within_the_threshold_never_grows() {
    let mut seed = 11;
    let mut tether = Tether::new(10, 250, None);
    let player = tether.add_body(at(0, 0, 0), BodyKind::Dynamic).unwrap();
    assert!(tether.deploy_stake(Some(player)).is_some());
    for _ in 0..1_000 {
        // Anywhere within 250 of the stake.
        let x = (next(&mut seed) % 289) as i32 - 144;
        let y = (next(&mut seed) % 289) as i32 - 144;
        let z = (next(&mut seed) % 289) as i32 - 144;
        assert!(tether.move_body(player, at(x, y, z)));
        let report = tether.tick(TickInput { trigger: None, elapsed: 16_667 });
        assert_eq!(report.splice, None);
        assert!(tether.chain_info().distance_to_target <= 250);
        assert_eq!(tether.chain_info().segment_count, 0);
    }
    assert_eq!(tether.joints().len(), 1);
    assert_eq!(tether.bodies().len(), 2);
}

#[test]
fn one_edge_ends_in_the_target_after_every_splice() {
    let mut tether = Tether::new(8, 250, None);
    let player = tether.add_body(at(0, 0, 0), BodyKind::Dynamic).unwrap();
    let deployment = tether.deploy_stake(Some(player)).unwrap();
    assert_eq!(tether.joints().edges_into(player), vec![deployment.final_joint]);
    let mut anchor = deployment.stake;
    for step in 1..=8 {
        assert!(tether.move_body(player, at(0, 700 * step, 0)));
        let before = tether.joints().get(tether.chain_info().final_joint.unwrap()).unwrap();
        let splice = tether.tick(TickInput { trigger: None, elapsed: 0 }).splice.unwrap();

        assert_eq!(tether.joints().edges_into(player), vec![splice.final_joint]);
        assert_eq!(tether.joints().edges_into(splice.segment), vec![splice.retargeted_joint]);
        let moved = tether.joints().get(splice.retargeted_joint).unwrap();
        assert_eq!(moved, JointEdge { body_b: splice.segment, ..before });
        assert_eq!(moved.body_a, anchor);
        assert_eq!(before.body_b, player);
        assert_eq!(
            tether.joints().get(splice.final_joint),
            Some(JointEdge::for_segment(splice.segment, player))
        );
        assert_ne!(splice.final_joint, splice.retargeted_joint);
        assert_eq!(tether.chain_info().target_handle, Some(player));
        assert_eq!(tether.chain_info().anchor_handle, Some(splice.segment));
        anchor = splice.segment;
    }
}

#[test]
fn full_tether_is_left_alone() {
    let mut seed = 3;
    let mut tether = Tether::new(2, 250, None);
    let player = tether.add_body(at(0, 0, 0), BodyKind::Dynamic).unwrap();
    assert!(tether.deploy_stake(Some(player)).is_some());
    assert!(tether.move_body(player, at(5_000, 0, 0)));
    tether.tick(TickInput { trigger: None, elapsed: 0 });
    tether.tick(TickInput { trigger: None, elapsed: 0 });
    assert_eq!(tether.chain_info().segment_count, 2);
    let joints = all_joints(&tether);
    let anchor = tether.chain_info().anchor_handle;
    for _ in 0..500 {
        let x = (next(&mut seed) % 2_000_000_000) as i32;
        assert!(tether.move_body(player, at(x, -x, x)));
        let trigger = if next(&mut seed) % 2 == 0 { Some(player) } else { None };
        let report = tether.tick(TickInput { trigger, elapsed: 1_000 });
        assert_eq!(report.splice, None);
        assert_eq!(report.deployment, None);
        assert_eq!(tether.chain_info().segment_count, 2);
        assert_eq!(tether.chain_info().anchor_handle, anchor);
    }
    assert_eq!(all_joints(&tether), joints);
}
