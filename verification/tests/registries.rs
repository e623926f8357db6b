use tether::bodies::{Body, BodyHandle, BodyKind, BodyRegistry};
use tether::geometry::Vector3;
use tether::joints::{
    JointDirectory, JointEdge, JointHandle, SEGMENT_JOINT_MAX_LENGTH, SEGMENT_JOINT_MIN_LENGTH,
    STAKE_JOINT_COMPLIANCE, STAKE_JOINT_MAX_LENGTH,
};

fn at(x: i32, y: i32, z: i32) -> Vector3 {
    Vector3 { x, y, z }
}

fn body(index: usize) -> BodyHandle {
    BodyHandle { index }
}

fn joint(index: usize) -> JointHandle {
    JointHandle { index }
}

#[test]
fn registry_starts_empty() {
    let registry = BodyRegistry::new();
    assert_eq!(registry.len(), 0);
    assert_eq!(registry.get(body(0)), None);
    assert_eq!(registry.get_transform(body(0)), None);
}

#[test]
fn registry_hands_out_handles_in_order() {
    let mut registry = BodyRegistry::new();
    let first = registry.create_body(at(1, 2, 3), BodyKind::Static);
    let second = registry.create_body(at(4, 5, 6), BodyKind::Dynamic);
    assert_eq!(first, body(0));
    assert_eq!(second, body(1));
    assert_eq!(registry.len(), 2);
    assert_eq!(registry.get(first), Some(Body { position: at(1, 2, 3), kind: BodyKind::Static }));
    assert_eq!(registry.get(second), Some(Body { position: at(4, 5, 6), kind: BodyKind::Dynamic }));
    assert_eq!(registry.get_transform(first), Some(at(1, 2, 3)));
    assert_eq!(registry.get_transform(second), Some(at(4, 5, 6)));
}

#[test]
fn registry_moves_a_body_and_keeps_its_kind() {
    let mut registry = BodyRegistry::new();
    let first = registry.create_body(at(1, 2, 3), BodyKind::Static);
    let second = registry.create_body(at(4, 5, 6), BodyKind::Dynamic);
    assert!(registry.set_transform(first, at(-7, -8, -9)));
    assert_eq!(registry.get(first), Some(Body { position: at(-7, -8, -9), kind: BodyKind::Static }));
    assert_eq!(registry.get_transform(second), Some(at(4, 5, 6)));
    assert_eq!(registry.len(), 2);
}

#[test]
fn registry_does_not_move_what_it_does_not_hold() {
    let mut registry = BodyRegistry::new();
    let first = registry.create_body(at(1, 2, 3), BodyKind::Static);
    assert!(!registry.set_transform(body(1), at(9, 9, 9)));
    assert!(!registry.set_transform(body(usize::MAX), at(9, 9, 9)));
    assert_eq!(registry.len(), 1);
    assert_eq!(registry.get_transform(first), Some(at(1, 2, 3)));
}

#[test]
fn registry_removes_a_body_for_good() {
    let mut registry = BodyRegistry::new();
    let first = registry.create_body(at(1, 2, 3), BodyKind::Static);
    let second = registry.create_body(at(4, 5, 6), BodyKind::Dynamic);
    assert!(registry.remove_body(first));
    assert_eq!(registry.get(first), None);
    assert_eq!(registry.get_transform(first), None);
    assert_eq!(registry.get_transform(second), Some(at(4, 5, 6)));
    assert!(!registry.remove_body(first));
    assert!(!registry.set_transform(first, at(0, 0, 0)));
    assert_eq!(registry.get(first), None);
}

#[test]
fn registry_never_hands_a_handle_out_twice() {
    let mut registry = BodyRegistry::new();
    let first = registry.create_body(at(1, 2, 3), BodyKind::Static);
    assert!(registry.remove_body(first));
    let second = registry.create_body(at(4, 5, 6), BodyKind::Dynamic);
    assert_ne!(first, second);
    assert_eq!(second, body(1));
    assert_eq!(registry.get(first), None);
    assert_eq!(registry.len(), 2);
}

fn sample_edge(a: usize, b: usize) -> JointEdge {
    JointEdge {
        body_a: body(a),
        body_b: body(b),
        min_length: 10,
        max_length: 20,
        anchor_offset_a: at(1, 0, 0),
        anchor_offset_b: at(0, 1, 0),
        compliance: 5,
    }
}

#[test]
fn directory_starts_empty() {
    let directory = JointDirectory::new();
    assert_eq!(directory.len(), 0);
    assert_eq!(directory.get(joint(0)), None);
    assert!(directory.edges_into(body(0)).is_empty());
}

#[test]
fn directory_hands_out_handles_in_order() {
    let mut directory = JointDirectory::new();
    let first = directory.create_joint(sample_edge(0, 1));
    let second = directory.create_joint(sample_edge(1, 2));
    assert_eq!(first, joint(0));
    assert_eq!(second, joint(1));
    assert_eq!(directory.len(), 2);
    assert_eq!(directory.get(first), Some(sample_edge(0, 1)));
    assert_eq!(directory.get(second), Some(sample_edge(1, 2)));
    assert_eq!(directory.get(joint(2)), None);
}

#[test]
fn directory_retargets_in_place() {
    let mut directory = JointDirectory::new();
    let first = directory.create_joint(sample_edge(0, 1));
    let second = directory.create_joint(sample_edge(1, 2));
    assert!(directory.retarget_joint(first, body(7)));
    let moved = directory.get(first).unwrap();
    assert_eq!(moved, JointEdge { body_b: body(7), ..sample_edge(0, 1) });
    assert_eq!(moved.body_a, body(0));
    assert_eq!(moved.min_length, 10);
    assert_eq!(moved.max_length, 20);
    assert_eq!(directory.get(second), Some(sample_edge(1, 2)));
    assert_eq!(directory.len(), 2);
}

#[test]
fn directory_does_not_retarget_what_it_does_not_hold() {
    let mut directory = JointDirectory::new();
    let first = directory.create_joint(sample_edge(0, 1));
    assert!(!directory.retarget_joint(joint(1), body(7)));
    assert_eq!(directory.get(first), Some(sample_edge(0, 1)));
    assert!(directory.remove_joint(first));
    assert!(!directory.retarget_joint(first, body(7)));
    assert_eq!(directory.get(first), None);
}

#[test]
fn directory_removes_an_edge_for_good() {
    let mut directory = JointDirectory::new();
    let first = directory.create_joint(sample_edge(0, 1));
    let second = directory.create_joint(sample_edge(1, 2));
    assert!(directory.remove_joint(first));
    assert!(!directory.remove_joint(first));
    assert_eq!(directory.get(first), None);
    assert_eq!(directory.get(second), Some(sample_edge(1, 2)));
    let third = directory.create_joint(sample_edge(2, 3));
    assert_eq!(third, joint(2));
    assert_eq!(directory.get(first), None);
}

#[test]
fn directory_lists_the_edges_into_a_body() {
    let mut directory = JointDirectory::new();
    let first = directory.create_joint(sample_edge(0, 9));
    let second = directory.create_joint(sample_edge(1, 2));
    let third = directory.create_joint(sample_edge(2, 9));
    let fourth = directory.create_joint(sample_edge(9, 3));
    assert_eq!(directory.edges_into(body(9)), vec![first, third]);
    assert_eq!(directory.edges_into(body(2)), vec![second]);
    assert_eq!(directory.edges_into(body(3)), vec![fourth]);
    assert!(directory.edges_into(body(0)).is_empty());
    assert!(directory.remove_joint(first));
    assert_eq!(directory.edges_into(body(9)), vec![third]);
    assert!(directory.retarget_joint(third, body(2)));
    assert!(directory.edges_into(body(9)).is_empty());
    assert_eq!(directory.edges_into(body(2)), vec![second, third]);
}

#[test]
fn stake_joint_has_its_limits() {
    let edge = JointEdge::for_stake(body(3), body(1));
    assert_eq!(
        edge,
        JointEdge {
            body_a: body(3),
            body_b: body(1),
            min_length: 0,
            max_length: 500,
            anchor_offset_a: at(0, 1000, 0),
            anchor_offset_b: at(500, 0, 0),
            compliance: 1000,
        }
    );
    assert_eq!(STAKE_JOINT_MAX_LENGTH, 500);
    assert_eq!(STAKE_JOINT_COMPLIANCE, 1000);
}

#[test]
fn segment_joint_has_its_limits() {
    let edge = JointEdge::for_segment(body(4), body(1));
    assert_eq!(
        edge,
        JointEdge {
            body_a: body(4),
            body_b: body(1),
            min_length: 300,
            max_length: 500,
            anchor_offset_a: at(0, 500, 0),
            anchor_offset_b: at(0, -500, 0),
            compliance: 0,
        }
    );
    assert_eq!(SEGMENT_JOINT_MIN_LENGTH, 300);
    assert_eq!(SEGMENT_JOINT_MAX_LENGTH, 500);
}
