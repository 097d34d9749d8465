use std::collections::VecDeque;

use kessler::model::InteractiveId;
use kessler::orbit::{collision_candidates, collision_victims, push_trail, ORBIT_OBJECT_TRAIL_LEN};

#[test]
fn trail_newest_first() {
    let mut trail = VecDeque::new();
    push_trail(&mut trail, 1);
    push_trail(&mut trail, 2);
    push_trail(&mut trail, 3);
    assert_eq!(trail, VecDeque::from(vec![3, 2, 1]));
}

#[test]
fn trail_stays_bounded() {
    let mut trail = VecDeque::new();
    for i in 0..200 {
        push_trail(&mut trail, i);
        assert!(trail.len() <= ORBIT_OBJECT_TRAIL_LEN);
        assert_eq!(trail[0], i);
    }
    assert_eq!(trail.len(), 60);
    assert_eq!(trail[59], 140);
}

#[test]
fn collision_candidates_pairs() {
    let pairs = collision_candidates(&vec![10, 11, 12], &vec![20, 21]);
    assert_eq!(
        pairs,
        vec![
            (10, InteractiveId::Satellite(11)),
            (10, InteractiveId::Debris(20)),
            (10, InteractiveId::Debris(21)),
            (11, InteractiveId::Satellite(12)),
            (11, InteractiveId::Debris(20)),
            (11, InteractiveId::Debris(21)),
        ]
    );
}

#[test]
fn collision_candidates_few_satellites() {
    assert!(collision_candidates(&vec![], &vec![1, 2]).is_empty());
    assert!(collision_candidates(&vec![5], &vec![1, 2]).is_empty());
    assert_eq!(collision_candidates(&vec![5, 6], &vec![]), vec![(5, InteractiveId::Satellite(6))]);
}

#[test]
fn collision_victims_names_satellites() {
    let victims = collision_victims(&vec![
        (10, InteractiveId::Satellite(11)),
        (12, InteractiveId::Debris(20)),
        (11, InteractiveId::Debris(21)),
    ]);
    assert_eq!(victims, vec![10, 11, 12, 11]);
    assert!(collision_victims(&vec![]).is_empty());
}
