use kessler::config::{
    Config, PlanetConfig, Research, ResearchConfig, ResearchItemConfig, SatelliteConfig,
};
use kessler::model::{
    Ability, Action, ActionEffect, CollisionRisk, InteractiveId, Model, QueuedLaunch,
    ResearchState, ResearchTint, SatelliteKind, Stat,
};

fn item(id: u64, after: Vec<u64>, cost: i64, effect: Research<f32>) -> ResearchItemConfig<f32> {
    ResearchItemConfig { name: format!("Research {}", id), id, after, cost, effect }
}

fn config() -> Config<f32> {
    Config {
        home_planet: PlanetConfig { radius: 5.0, orbit_distance: 3.0 },
        theoretic_research: 10,
        satellite: SatelliteConfig { launch_cost: 30, science: 5, interval: 2.0 },
        research: ResearchConfig {
            items: vec![
                item(1, vec![], 20, Research::Unlock(Ability::Launch(SatelliteKind::Basic))),
                item(2, vec![1], 50, Research::Upgrade(Stat::Theorycrafting, 0.5)),
                item(3, vec![1, 2], 100, Research::Unlock(Ability::Deorbit)),
                item(2, vec![], 1, Research::Unlock(Ability::DeorbitAuto)),
            ],
        },
    }
}

#[test]
fn new_model_starts_with_theoretic_research() {
    let model = Model::new(config());
    assert_eq!(model.science, 0);
    assert!(model.researched.is_empty());
    assert!(model.abilities.contains(&Ability::TheoreticResearch));
    assert!(!model.abilities.contains(&Ability::Deorbit));
}

#[test]
fn action_abilities() {
    assert_eq!(Action::TheoreticResearch.ability(), Ability::TheoreticResearch);
    assert_eq!(
        Action::Launch(SatelliteKind::Communication).ability(),
        Ability::Launch(SatelliteKind::Communication)
    );
    assert_eq!(Action::Deorbit(InteractiveId::Debris(7)).ability(), Ability::Deorbit);
}

#[test]
fn get_research_finds_first_with_id() {
    let model = Model::new(config());
    assert_eq!(model.get_research(2).map(|r| r.cost), Some(50));
    assert_eq!(model.get_research(3).map(|r| r.cost), Some(100));
    assert!(model.get_research(9).is_none());
}

#[test]
fn research_states() {
    let mut model = Model::new(config());
    assert_eq!(model.get_research_state(1), ResearchState::Available { cost: 20 });
    assert_eq!(model.get_research_state(2), ResearchState::Locked);
    assert_eq!(model.get_research_state(9), ResearchState::Locked);
    model.science = 20;
    assert_eq!(model.research(1), None);
    assert_eq!(model.get_research_state(1), ResearchState::Researched);
    assert_eq!(model.get_research_state(2), ResearchState::Available { cost: 50 });
    assert_eq!(model.get_research_state(3), ResearchState::Locked);
}

#[test]
fn research_unlocks_ability() {
    let mut model = Model::new(config());
    model.science = 25;
    assert_eq!(model.research(1), None);
    assert_eq!(model.science, 5);
    assert!(model.researched.contains(&1));
    assert!(model.abilities.contains(&Ability::Launch(SatelliteKind::Basic)));
}

#[test]
fn research_returns_upgrade() {
    let mut model = Model::new(config());
    model.science = 60;
    assert_eq!(model.research(2), Some((Stat::Theorycrafting, 0.5)));
    assert_eq!(model.science, 10);
    assert!(model.researched.contains(&2));
    assert!(!model.abilities.contains(&Ability::DeorbitAuto));
}

#[test]
fn research_refused_without_change() {
    let mut model = Model::new(config());
    model.science = 10;
    // not enough science
    assert_eq!(model.research(1), None);
    assert_eq!(model.science, 10);
    assert!(!model.researched.contains(&1));
    // unknown research
    assert_eq!(model.research(42), None);
    assert_eq!(model.science, 10);
    // already researched
    model.science = 100;
    model.research(1);
    assert_eq!(model.science, 80);
    assert_eq!(model.research(1), None);
    assert_eq!(model.science, 80);
}

#[test]
fn action_refused_without_ability() {
    let mut model = Model::new(config());
    model.science = 100;
    assert_eq!(model.action(Action::Launch(SatelliteKind::Basic)), ActionEffect::Refused);
    assert_eq!(model.science, 100);
    assert_eq!(
        model.action(Action::Deorbit(InteractiveId::Satellite(3))),
        ActionEffect::Refused
    );
}

#[test]
fn action_effects() {
    let mut model = Model::new(config());
    assert_eq!(model.action(Action::TheoreticResearch), ActionEffect::TheoryProgress);
    model.abilities.insert(Ability::Launch(SatelliteKind::Basic));
    model.abilities.insert(Ability::Deorbit);
    model.science = 40;
    assert_eq!(
        model.action(Action::Launch(SatelliteKind::Basic)),
        ActionEffect::Launch(SatelliteKind::Basic)
    );
    assert_eq!(model.science, 10);
    assert_eq!(model.action(Action::Launch(SatelliteKind::Basic)), ActionEffect::Refused);
    assert_eq!(model.science, 10);
    assert_eq!(
        model.action(Action::Deorbit(InteractiveId::Debris(4))),
        ActionEffect::Deorbit(InteractiveId::Debris(4))
    );
}

#[test]
fn pay_for_launch_free_and_paid() {
    let mut model = Model::new(config());
    model.science = 10;
    assert!(model.pay_for_launch(false));
    assert_eq!(model.science, 10);
    assert!(!model.pay_for_launch(true));
    assert_eq!(model.science, 10);
    model.science = 30;
    assert!(model.pay_for_launch(true));
    assert_eq!(model.science, 0);
}

#[test]
fn launch_queue_keeps_unpaid_launches() {
    let mut model = Model::new(config());
    model.science = 70;
    let queue = vec![
        QueuedLaunch { payment: true, kind: SatelliteKind::Basic },
        QueuedLaunch { payment: true, kind: SatelliteKind::Communication },
        QueuedLaunch { payment: true, kind: SatelliteKind::DebrisCleaner },
        QueuedLaunch { payment: false, kind: SatelliteKind::Basic },
    ];
    let (launched, waiting) = model.process_launch_queue(queue);
    assert_eq!(
        launched,
        vec![SatelliteKind::Basic, SatelliteKind::Communication, SatelliteKind::Basic]
    );
    assert_eq!(waiting, vec![QueuedLaunch { payment: true, kind: SatelliteKind::DebrisCleaner }]);
    assert_eq!(model.science, 10);
}

#[test]
fn retire_satellite_orders() {
    let mut model = Model::new(config());
    assert_eq!(model.retire_satellite(false), (false, false));
    assert_eq!(model.retire_satellite(true), (true, false));
    model.abilities.insert(Ability::DeorbitAuto);
    assert_eq!(model.retire_satellite(false), (true, false));
    model.abilities.insert(Ability::DeployAuto);
    assert_eq!(model.retire_satellite(false), (true, true));
    assert_eq!(model.retire_satellite(true), (true, false));
}

#[test]
fn collision_risk_levels() {
    assert_eq!(CollisionRisk::from_object_count(0, 5, 8, 15), CollisionRisk::Safe);
    assert_eq!(CollisionRisk::from_object_count(5, 5, 8, 15), CollisionRisk::Safe);
    assert_eq!(CollisionRisk::from_object_count(6, 5, 8, 15), CollisionRisk::Caution);
    assert_eq!(CollisionRisk::from_object_count(8, 5, 8, 15), CollisionRisk::Caution);
    assert_eq!(CollisionRisk::from_object_count(15, 5, 8, 15), CollisionRisk::Moderate);
    assert_eq!(CollisionRisk::from_object_count(16, 5, 8, 15), CollisionRisk::Severe);
}

#[test]
fn collision_risk_never_drops_with_more_objects() {
    let mut last = CollisionRisk::Safe;
    for total in 0..40 {
        let risk = CollisionRisk::from_object_count(total, 7, 12, 22);
        assert!(risk >= last);
        last = risk;
    }
    assert_eq!(last, CollisionRisk::Severe);
}

#[test]
fn research_window_shows_done_and_available() {
    assert!(ResearchState::Researched.is_shown());
    assert!(ResearchState::Available { cost: 3 }.is_shown());
    assert!(!ResearchState::Locked.is_shown());
}

#[test]
fn research_tints() {
    let mut model = Model::new(config());
    assert_eq!(model.research_tint(1), ResearchTint::Expensive);
    assert_eq!(model.research_tint(2), ResearchTint::Locked);
    model.science = 20;
    assert_eq!(model.research_tint(1), ResearchTint::Available);
    model.research(1);
    assert_eq!(model.research_tint(1), ResearchTint::Researched);
    assert_eq!(model.research_tint(2), ResearchTint::Expensive);
}
