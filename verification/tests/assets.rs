use kessler::assets::{research_icon, ResearchIcon};

#[test]
fn research_icons_by_name() {
    assert_eq!(research_icon("Orbit Program"), ResearchIcon::OrbitProgram);
    assert_eq!(research_icon("Crashlanding"), ResearchIcon::Crashlanding);
    assert_eq!(research_icon("Theorycrafting I"), ResearchIcon::Theorycrafting);
    assert_eq!(research_icon("Theorycrafting III"), ResearchIcon::Theorycrafting);
    assert_eq!(research_icon("Engineering II"), ResearchIcon::Engineering);
    assert_eq!(research_icon("Structural Integrity I"), ResearchIcon::StructuralIntegrity);
    assert_eq!(research_icon("Data Compression II"), ResearchIcon::DataCompression);
    assert_eq!(research_icon("Communications"), ResearchIcon::Communications);
    assert_eq!(research_icon("Orbit Observation"), ResearchIcon::OrbitObservation);
    assert_eq!(research_icon("Collision Risk Analysis"), ResearchIcon::OrbitProgram);
    assert_eq!(research_icon("Debris Cleaning"), ResearchIcon::DebrisCleaning);
    assert_eq!(research_icon("Collision Avoidance II"), ResearchIcon::CollisionAvoidance);
    assert_eq!(research_icon("Automation I"), ResearchIcon::Automation);
}

#[test]
fn research_icon_unknown_name() {
    assert_eq!(research_icon(""), ResearchIcon::OrbitProgram);
    assert_eq!(research_icon("Automation III"), ResearchIcon::OrbitProgram);
    assert_eq!(research_icon("crashlanding"), ResearchIcon::OrbitProgram);
}
