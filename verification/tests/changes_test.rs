use itil_core::changes::{
    create, delete, load_all, update, RFCCreateset, RFCStatus, RFCUpdateset, RFC,
};
use itil_core::error::Error;
use itil_core::patch::PatchField;

fn testing_createset() -> RFCCreateset {
    RFCCreateset {
        title: String::from("Sales Department OS Update"),
        status: None,
        created_at: None,
        finished_at: None,
        requester: String::from("Sales Department."),
        description: String::from("Update sales department workstations to naviOS v25."),
    }
}

#[test]
fn test_delete_missing_rfc_is_not_found() {
    let mut items: Vec<RFC> = Vec::new();
    assert!(matches!(delete(&mut items, 123), Err(Error::NotFound)));
}

#[test]
fn test_rfc_create_defaults() {
    let mut items: Vec<RFC> = Vec::new();

    let rec = create(&mut items, testing_createset(), 3, String::from("2024-05-01T09:00:00Z"))
        .unwrap();

    assert_eq!(rec.status, RFCStatus::Open);
    assert_eq!(rec.created_at, "2024-05-01T09:00:00Z");
    assert_eq!(rec.finished_at, None);
    assert_eq!(load_all(&items).len(), 1);
}

#[test]
fn test_rfc_update_finishes() {
    let mut items: Vec<RFC> = Vec::new();
    create(&mut items, testing_createset(), 3, String::from("now")).unwrap();

    let u = RFCUpdateset {
        title: PatchField::Missing,
        status: PatchField::Value(RFCStatus::Closed),
        created_at: PatchField::Missing,
        finished_at: PatchField::Value(String::from("2024-06-01T09:00:00Z")),
        requester: PatchField::Missing,
        description: PatchField::Missing,
    };
    let rec = update(&mut items, 3, u).unwrap();

    assert_eq!(rec.status, RFCStatus::Closed);
    assert_eq!(rec.finished_at, Some(String::from("2024-06-01T09:00:00Z")));
    assert_eq!(rec.title, "Sales Department OS Update");
}

#[test]
fn test_rfc_update_null_requester_rejected() {
    let mut items: Vec<RFC> = Vec::new();
    create(&mut items, testing_createset(), 3, String::from("now")).unwrap();

    let u = RFCUpdateset {
        title: PatchField::Missing,
        status: PatchField::Missing,
        created_at: PatchField::Missing,
        finished_at: PatchField::Missing,
        requester: PatchField::Null,
        description: PatchField::Missing,
    };
    match update(&mut items, 3, u) {
        Err(Error::ValidationError(f)) => assert_eq!(f, "requester"),
        _ => panic!("expected a validation error"),
    }
}
