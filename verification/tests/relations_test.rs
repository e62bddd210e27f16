use itil_core::changes::{problem_relations, RFCCreateset, RFC};
use itil_core::changes::incident_relations::{self, RFCIncidentCreateset, RFCIncidentRelation};
use itil_core::changes::problem_relations::{RFCProblemCreateset, RFCProblemRelation};
use itil_core::configitems::{CIStatus, ConfigItem};
use itil_core::configuration::changes as ci_changes;
use itil_core::configuration::changes::{CIChange, CIChangeCreateset, CIChangeUpdateset};
use itil_core::error::Error;
use itil_core::incidents::ci_relations;
use itil_core::incidents::ci_relations::IncidentCIRelation;
use itil_core::incidents::{Incident, IncidentImpact, IncidentStatus, IncidentUrgency};
use itil_core::patch::PatchField;
use itil_core::problems::incident_relations as problem_incident_relations;
use itil_core::problems::incident_relations::ProblemIncidentRelation;
use itil_core::problems::{Problem, ProblemStatus};

fn an_incident(id: u128) -> Incident {
    Incident {
        id,
        title: String::from("Incident"),
        status: IncidentStatus::Open,
        created_at: String::from("2024-05-01T09:00:00Z"),
        resolved_at: None,
        impact: IncidentImpact::Low,
        urgency: IncidentUrgency::Low,
        owner: None,
        asignee: None,
        description: String::from(""),
    }
}

fn a_config_item(id: u128) -> ConfigItem {
    ConfigItem {
        id,
        name: String::from("IBM 5100"),
        status: CIStatus::Active,
        created_at: String::from("2024-05-01T09:00:00Z"),
        ci_type: None,
        owner: None,
        description: String::from(""),
    }
}

fn a_problem(id: u128) -> Problem {
    Problem {
        id,
        title: String::from("Problem"),
        status: ProblemStatus::Open,
        detection_timedate: String::from("2024-05-01T09:00:00Z"),
        description: String::from(""),
        causes: String::from(""),
        workarounds: None,
        resolutions: None,
    }
}

fn an_rfc(id: u128) -> RFC {
    RFC {
        id,
        title: String::from("RFC"),
        status: itil_core::changes::RFCStatus::Open,
        created_at: String::from("2024-05-01T09:00:00Z"),
        finished_at: None,
        requester: String::from("Someone"),
        description: String::from(""),
    }
}

#[test]
fn test_relation_create_missing_parent_is_not_found() {
    let mut relations: Vec<IncidentCIRelation> = Vec::new();
    let incidents: Vec<Incident> = Vec::new();
    let configitems = vec![a_config_item(2)];

    let res = ci_relations::create(&mut relations, &incidents, &configitems, 1, 2);

    assert!(matches!(res, Err(Error::NotFound)));
    assert!(relations.is_empty());
}

#[test]
fn test_relation_create_missing_child_is_constraint_error() {
    let mut relations: Vec<IncidentCIRelation> = Vec::new();
    let incidents = vec![an_incident(1)];
    let configitems: Vec<ConfigItem> = Vec::new();

    let res = ci_relations::create(&mut relations, &incidents, &configitems, 1, 2);

    assert!(matches!(res, Err(Error::ConstraintError)));
    assert!(relations.is_empty());
}

#[test]
fn test_relation_create_and_update_description() {
    let mut relations: Vec<IncidentCIRelation> = Vec::new();
    let incidents = vec![an_incident(1)];
    let configitems = vec![a_config_item(2)];

    let rel = ci_relations::create(&mut relations, &incidents, &configitems, 1, 2).unwrap();
    assert_eq!(rel.description, "");

    let rel = ci_relations::update(&mut relations, 1, 2, String::from("Broke it")).unwrap();
    assert_eq!(rel.description, "Broke it");
    assert_eq!(relations.len(), 1);
    assert_eq!(relations[0].description, "Broke it");

    ci_relations::delete(&mut relations, 1, 2).unwrap();
    assert!(relations.is_empty());
    assert!(matches!(
        ci_relations::update(&mut relations, 1, 2, String::new()),
        Err(Error::NotFound)
    ));
}

#[test]
fn test_relation_load_all_filters_by_parent() {
    let mut relations: Vec<IncidentCIRelation> = Vec::new();
    let incidents = vec![an_incident(1), an_incident(9)];
    let configitems = vec![a_config_item(2), a_config_item(3)];

    ci_relations::create(&mut relations, &incidents, &configitems, 1, 2).unwrap();
    ci_relations::create(&mut relations, &incidents, &configitems, 9, 2).unwrap();
    ci_relations::create(&mut relations, &incidents, &configitems, 1, 3).unwrap();

    let of_one = ci_relations::load_all(&relations, &incidents, 1).unwrap();
    assert_eq!(of_one.len(), 2);
    assert!(of_one.iter().all(|r| r.incident_id == 1));
    assert!(matches!(
        ci_relations::load_all(&relations, &incidents, 77),
        Err(Error::NotFound)
    ));
}

#[test]
fn test_problem_incident_relation_atomicity() {
    let mut relations: Vec<ProblemIncidentRelation> = Vec::new();
    let problems = vec![a_problem(4)];
    let incidents = vec![an_incident(1)];

    assert!(matches!(
        problem_incident_relations::create(&mut relations, &problems, &incidents, 99, 1),
        Err(Error::NotFound)
    ));
    assert!(matches!(
        problem_incident_relations::create(&mut relations, &problems, &incidents, 4, 99),
        Err(Error::ConstraintError)
    ));
    assert!(relations.is_empty());

    let rel = problem_incident_relations::create(&mut relations, &problems, &incidents, 4, 1)
        .unwrap();
    assert_eq!(rel.problem_id, 4);
    assert_eq!(rel.incident_id, 1);

    let rel =
        problem_incident_relations::update(&mut relations, 4, 1, String::from("Is caused by"))
            .unwrap();
    assert_eq!(rel.description, "Is caused by");
}

#[test]
fn test_rfc_problem_relation_lifecycle() {
    let mut relations: Vec<RFCProblemRelation> = Vec::new();
    let rfcs = vec![an_rfc(10)];
    let problems = vec![a_problem(4)];

    assert!(matches!(
        problem_relations::create(
            &mut relations,
            &rfcs,
            &problems,
            77,
            RFCProblemCreateset { problem_id: 4 },
            50
        ),
        Err(Error::NotFound)
    ));
    assert!(matches!(
        problem_relations::create(
            &mut relations,
            &rfcs,
            &problems,
            10,
            RFCProblemCreateset { problem_id: 99 },
            50
        ),
        Err(Error::ConstraintError)
    ));
    assert!(relations.is_empty());

    let rel = problem_relations::create(
        &mut relations,
        &rfcs,
        &problems,
        10,
        RFCProblemCreateset { problem_id: 4 },
        50,
    )
    .unwrap();
    assert_eq!(rel.rfc_id, 10);
    assert_eq!(rel.problem_id, 4);

    let listed = problem_relations::load_all(&relations, &rfcs, 10).unwrap();
    assert_eq!(listed.len(), 1);

    assert!(matches!(
        problem_relations::delete(&mut relations, 99, 50),
        Err(Error::NotFound)
    ));
    problem_relations::delete(&mut relations, 10, 50).unwrap();
    assert!(relations.is_empty());
}

#[test]
fn test_rfc_incident_relation_lifecycle() {
    let mut relations: Vec<RFCIncidentRelation> = Vec::new();
    let rfcs = vec![an_rfc(10)];
    let incidents = vec![an_incident(1)];

    let rel = incident_relations::create(
        &mut relations,
        &rfcs,
        &incidents,
        10,
        RFCIncidentCreateset { incident_id: 1 },
        60,
    )
    .unwrap();
    assert_eq!(rel.incident_id, 1);

    let listed = incident_relations::load_all(&relations, &rfcs, 10).unwrap();
    assert_eq!(listed.len(), 1);

    incident_relations::delete(&mut relations, 10, 60).unwrap();
    assert!(relations.is_empty());
}

#[test]
fn test_ci_change_lifecycle() {
    let mut changes: Vec<CIChange> = Vec::new();
    let configitems = vec![a_config_item(2)];

    assert!(matches!(
        ci_changes::create(
            &mut changes,
            &configitems,
            99,
            CIChangeCreateset {
                implementation_timedate: String::from("2024-05-01T09:00:00Z"),
                documentation: String::from("docs.local/changes/ci001/987.pdf"),
            },
            30
        ),
        Err(Error::NotFound)
    ));
    assert!(changes.is_empty());

    let rec = ci_changes::create(
        &mut changes,
        &configitems,
        2,
        CIChangeCreateset {
            implementation_timedate: String::from("2024-05-01T09:00:00Z"),
            documentation: String::from("docs.local/changes/ci001/987.pdf"),
        },
        30,
    )
    .unwrap();
    assert_eq!(rec.ci_id, 2);

    let listed = ci_changes::load_all(&changes, &configitems, 2).unwrap();
    assert_eq!(listed.len(), 1);

    let u = CIChangeUpdateset {
        implementation_timedate: PatchField::Missing,
        documentation: PatchField::Value(String::from("docs.local/changes/ci001/988.pdf")),
    };
    let rec = ci_changes::update(&mut changes, 30, 2, u).unwrap();
    assert_eq!(rec.documentation, "docs.local/changes/ci001/988.pdf");
    assert_eq!(rec.implementation_timedate, "2024-05-01T09:00:00Z");

    let u = CIChangeUpdateset {
        implementation_timedate: PatchField::Null,
        documentation: PatchField::Missing,
    };
    match ci_changes::update(&mut changes, 30, 2, u) {
        Err(Error::ValidationError(f)) => assert_eq!(f, "implementation_timedate"),
        _ => panic!("expected a validation error"),
    }

    assert!(matches!(
        ci_changes::load(&changes, 30, 99),
        Err(Error::NotFound)
    ));
    ci_changes::load(&changes, 30, 2).unwrap();

    assert!(matches!(
        ci_changes::delete(&mut changes, 30, 99),
        Err(Error::NotFound)
    ));
    ci_changes::delete(&mut changes, 30, 2).unwrap();
    assert!(changes.is_empty());
}

#[test]
fn test_ci_changes_listed_latest_first() {
    let mut changes: Vec<CIChange> = Vec::new();
    let configitems = vec![a_config_item(2)];

    for (id, when) in [
        (31, "2024-03-01T09:00:00Z"),
        (32, "2024-05-01T09:00:00Z"),
        (33, "2024-04-01T09:00:00Z"),
        (34, "2024-05-01T09:00:00Z"),
    ] {
        ci_changes::create(
            &mut changes,
            &configitems,
            2,
            CIChangeCreateset {
                implementation_timedate: String::from(when),
                documentation: String::from("docs.local/changes/ci001/987.pdf"),
            },
            id,
        )
        .unwrap();
    }

    let listed = ci_changes::load_all(&changes, &configitems, 2).unwrap();

    let ids: Vec<u128> = listed.iter().map(|c| c.id).collect();
    assert_eq!(ids, vec![32, 34, 33, 31]);
}
