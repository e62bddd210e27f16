use itil_core::error::Error;
use itil_core::incidents::{
    create, load, update, Incident, IncidentCreateset, IncidentImpact, IncidentPrio,
    IncidentStatus, IncidentUpdateset, IncidentUrgency,
};
use itil_core::patch::PatchField;

fn build_testing_incident() -> Incident {
    Incident {
        title: String::from("Test Incident"),
        id: 0x67e55044_10b1_426f_9247_bb680e5fe0c8,
        status: IncidentStatus::Open,
        created_at: String::from("2024-05-01T09:00:00Z"),
        resolved_at: None,
        impact: IncidentImpact::Low,
        urgency: IncidentUrgency::Low,
        owner: Some(String::from("Me")),
        asignee: Some(String::from("Someone")),
        description: String::from(""),
    }
}

#[test]
fn test_low_priority() {
    let mut incidents = Vec::new();
    incidents.push(build_testing_incident());
    incidents.push(Incident {
        impact: IncidentImpact::Medium,
        ..build_testing_incident()
    });
    incidents.push(Incident {
        urgency: IncidentUrgency::Medium,
        ..build_testing_incident()
    });

    for incident in incidents {
        assert_eq!(incident.priority(), IncidentPrio::Low);
    }
}

#[test]
fn test_moderate_priority() {
    let mut incidents = Vec::new();
    incidents.push(Incident {
        impact: IncidentImpact::High,
        ..build_testing_incident()
    });
    incidents.push(Incident {
        urgency: IncidentUrgency::High,
        ..build_testing_incident()
    });
    incidents.push(Incident {
        impact: IncidentImpact::Medium,
        urgency: IncidentUrgency::Medium,
        ..build_testing_incident()
    });

    for incident in incidents {
        assert_eq!(incident.priority(), IncidentPrio::Moderate);
    }
}

#[test]
fn test_high_priority() {
    let mut incidents = Vec::new();
    incidents.push(Incident {
        impact: IncidentImpact::High,
        urgency: IncidentUrgency::Medium,
        ..build_testing_incident()
    });
    incidents.push(Incident {
        impact: IncidentImpact::Medium,
        urgency: IncidentUrgency::High,
        ..build_testing_incident()
    });

    for incident in incidents {
        assert_eq!(incident.priority(), IncidentPrio::High);
    }
}

#[test]
fn test_critical_priority() {
    let incident = Incident {
        impact: IncidentImpact::High,
        urgency: IncidentUrgency::High,
        ..build_testing_incident()
    };
    assert_eq!(incident.priority(), IncidentPrio::Critical);
}

#[test]
fn test_weights() {
    assert_eq!(IncidentImpact::High.weight(), 3);
    assert_eq!(IncidentImpact::Medium.weight(), 2);
    assert_eq!(IncidentImpact::Low.weight(), 1);
    assert_eq!(IncidentUrgency::High.weight(), 3);
    assert_eq!(IncidentUrgency::Medium.weight(), 2);
    assert_eq!(IncidentUrgency::Low.weight(), 1);
}

fn testing_createset() -> IncidentCreateset {
    IncidentCreateset {
        title: String::from("Proxy Not Working"),
        status: None,
        created_at: None,
        resolved_at: None,
        impact: IncidentImpact::High,
        urgency: IncidentUrgency::High,
        owner: Some(String::from("Sales Department")),
        asignee: None,
        description: String::from("Proxy server not working."),
    }
}

#[test]
fn test_incident_create_defaults_and_priority() {
    let mut items: Vec<Incident> = Vec::new();

    let rec = create(&mut items, testing_createset(), 5, String::from("2024-05-01T09:00:00Z"))
        .unwrap();

    assert_eq!(rec.status, IncidentStatus::Open);
    assert_eq!(rec.created_at, "2024-05-01T09:00:00Z");
    let back = load(&items, 5).unwrap();
    assert_eq!(back.priority(), IncidentPrio::Critical);
}

#[test]
fn test_incident_update_null_impact_rejected() {
    let mut items: Vec<Incident> = Vec::new();
    create(&mut items, testing_createset(), 5, String::from("now")).unwrap();

    let u = IncidentUpdateset {
        title: PatchField::Missing,
        status: PatchField::Missing,
        created_at: PatchField::Missing,
        resolved_at: PatchField::Missing,
        impact: PatchField::Null,
        urgency: PatchField::Missing,
        owner: PatchField::Missing,
        asignee: PatchField::Missing,
        description: PatchField::Missing,
    };
    match update(&mut items, 5, u) {
        Err(Error::ValidationError(f)) => assert_eq!(f, "impact"),
        _ => panic!("expected a validation error"),
    }
}

#[test]
fn test_incident_update_resolves_and_clears() {
    let mut items: Vec<Incident> = Vec::new();
    create(&mut items, testing_createset(), 5, String::from("now")).unwrap();

    let u = IncidentUpdateset {
        title: PatchField::Missing,
        status: PatchField::Value(IncidentStatus::Closed),
        created_at: PatchField::Missing,
        resolved_at: PatchField::Value(String::from("2024-05-02T10:00:00Z")),
        impact: PatchField::Value(IncidentImpact::Low),
        urgency: PatchField::Missing,
        owner: PatchField::Null,
        asignee: PatchField::Missing,
        description: PatchField::Missing,
    };
    let rec = update(&mut items, 5, u).unwrap();

    assert_eq!(rec.status, IncidentStatus::Closed);
    assert_eq!(rec.resolved_at, Some(String::from("2024-05-02T10:00:00Z")));
    assert_eq!(rec.owner, None);
    assert_eq!(rec.asignee, None);
    assert_eq!(rec.priority(), IncidentPrio::Moderate);
}

#[test]
fn test_incident_to_json_computes_priority() {
    let incident = Incident {
        impact: IncidentImpact::High,
        urgency: IncidentUrgency::High,
        ..build_testing_incident()
    };

    let json = itil_core::incidents::json::incident_to_json(&incident);

    assert!(json.contains("\"id\":\"67e55044-10b1-426f-9247-bb680e5fe0c8\""));
    assert!(json.contains("\"title\":\"Test Incident\""));
    assert!(json.contains("\"status\":\"open\""));
    assert!(json.contains("\"resolved_at\":null"));
    assert!(json.contains("\"impact\":\"high\""));
    assert!(json.contains("\"urgency\":\"high\""));
    assert!(json.contains("\"priority\":\"critical\""));
    assert!(json.contains("\"owner\":\"Me\""));
}

#[test]
fn test_uuid_text_canonical_form() {
    assert_eq!(
        itil_core::common::uuid_text(0),
        "00000000-0000-0000-0000-000000000000"
    );
    assert_eq!(
        itil_core::common::uuid_text(0x550e8400_e29b_41d4_a716_446655440000),
        "550e8400-e29b-41d4-a716-446655440000"
    );
    assert_eq!(
        itil_core::common::uuid_text(u128::MAX),
        "ffffffff-ffff-ffff-ffff-ffffffffffff"
    );
}
