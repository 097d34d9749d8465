use vstd::prelude::*;
use vstd::string::*;

verus! {

/// The icon drawn for a research in the research window.
#[derive(Debug, Clone, Copy, PartialEq, Eq, Structural)]
pub enum ResearchIcon {
    OrbitProgram,
    Crashlanding,
    StructuralIntegrity,
    Theorycrafting,
    Engineering,
    Communications,
    DataCompression,
    DebrisCleaning,
    OrbitObservation,
    Automation,
    CollisionAvoidance,
}

/// The icon for a research name; an unknown name gets the orbit program icon.
pub open spec fn spec_research_icon(name: Seq<char>) -> ResearchIcon {
    if name == "Orbit Program"@ {
        ResearchIcon::OrbitProgram
    } else if name == "Crashlanding"@ {
        ResearchIcon::Crashlanding
    } else if name == "Theorycrafting I"@ {
        ResearchIcon::Theorycrafting
    } else if name == "Theorycrafting II"@ {
        ResearchIcon::Theorycrafting
    } else if name == "Theorycrafting III"@ {
        ResearchIcon::Theorycrafting
    } else if name == "Engineering I"@ {
        ResearchIcon::Engineering
    } else if name == "Engineering II"@ {
        ResearchIcon::Engineering
    } else if name == "Structural Integrity I"@ {
        ResearchIcon::StructuralIntegrity
    } else if name == "Structural Integrity II"@ {
        ResearchIcon::StructuralIntegrity
    } else if name == "Data Compression I"@ {
        ResearchIcon::DataCompression
    } else if name == "Data Compression II"@ {
        ResearchIcon::DataCompression
    } else if name == "Data Compression III"@ {
        ResearchIcon::DataCompression
    } else if name == "Communications"@ {
        ResearchIcon::Communications
    } else if name == "Orbit Observation"@ {
        ResearchIcon::OrbitObservation
    } else if name == "Collision Risk Analysis"@ {
        ResearchIcon::OrbitProgram
    } else if name == "Debris Cleaning"@ {
        ResearchIcon::DebrisCleaning
    } else if name == "Collision Avoidance I"@ {
        ResearchIcon::CollisionAvoidance
    } else if name == "Collision Avoidance II"@ {
        ResearchIcon::CollisionAvoidance
    } else if name == "Automation I"@ {
        ResearchIcon::Automation
    } else if name == "Automation II"@ {
        ResearchIcon::Automation
    } else {
        ResearchIcon::OrbitProgram
    }
}

/// The icon for the research with the given name; an unknown name gets the
/// orbit program icon.
pub fn research_icon(name: &str) -> (icon: ResearchIcon)
    ensures
        icon == spec_research_icon(name@),
{
    let name = String::from_str(name);
    if name == String::from_str("Orbit Program") {
        ResearchIcon::OrbitProgram
    } else if name == String::from_str("Crashlanding") {
        ResearchIcon::Crashlanding
    } else if name == String::from_str("Theorycrafting I") {
        ResearchIcon::Theorycrafting
    } else if name == String::from_str("Theorycrafting II") {
        ResearchIcon::Theorycrafting
    } else if name == String::from_str("Theorycrafting III") {
        ResearchIcon::Theorycrafting
    } else if name == String::from_str("Engineering I") {
        ResearchIcon::Engineering
    } else if name == String::from_str("Engineering II") {
        ResearchIcon::Engineering
    } else if name == String::from_str("Structural Integrity I") {
        ResearchIcon::StructuralIntegrity
    } else if name == String::from_str("Structural Integrity II") {
        ResearchIcon::StructuralIntegrity
    } else if name == String::from_str("Data Compression I") {
        ResearchIcon::DataCompression
    } else if name == String::from_str("Data Compression II") {
        ResearchIcon::DataCompression
    } else if name == String::from_str("Data Compression III") {
        ResearchIcon::DataCompression
    } else if name == String::from_str("Communications") {
        ResearchIcon::Communications
    } else if name == String::from_str("Orbit Observation") {
        ResearchIcon::OrbitObservation
    } else if name == String::from_str("Collision Risk Analysis") {
        ResearchIcon::OrbitProgram
    } else if name == String::from_str("Debris Cleaning") {
        ResearchIcon::DebrisCleaning
    } else if name == String::from_str("Collision Avoidance I") {
        ResearchIcon::CollisionAvoidance
    } else if name == String::from_str("Collision Avoidance II") {
        ResearchIcon::CollisionAvoidance
    } else if name == String::from_str("Automation I") {
        ResearchIcon::Automation
    } else if name == String::from_str("Automation II") {
        ResearchIcon::Automation
    } else {
        ResearchIcon::OrbitProgram
    }
}

} // verus!
