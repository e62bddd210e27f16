use itil_core::error::Error;
use itil_core::patch::PatchField;
use itil_core::problems::{
    create, load, update, Problem, ProblemCreateset, ProblemStatus, ProblemUpdateset,
};

fn testing_createset() -> ProblemCreateset {
    ProblemCreateset {
        title: String::from("Low Bandwidth in Office"),
        status: None,
        detection_timedate: None,
        description: String::from("Bandwidth doesn't go above 1Mb/s."),
        causes: String::from("Router is misconfigured."),
        workarounds: Some(String::from("docs.local/workarounds/003.pdf")),
        resolutions: None,
    }
}

fn all_missing_updateset() -> ProblemUpdateset {
    ProblemUpdateset {
        title: PatchField::Missing,
        status: PatchField::Missing,
        detection_timedate: PatchField::Missing,
        description: PatchField::Missing,
        causes: PatchField::Missing,
        workarounds: PatchField::Missing,
        resolutions: PatchField::Missing,
    }
}

#[test]
fn test_problem_create_defaults() {
    let mut items: Vec<Problem> = Vec::new();

    let rec = create(&mut items, testing_createset(), 9, String::from("2024-05-01T09:00:00Z"))
        .unwrap();

    assert_eq!(rec.status, ProblemStatus::Open);
    assert_eq!(rec.detection_timedate, "2024-05-01T09:00:00Z");
    assert_eq!(rec.workarounds, Some(String::from("docs.local/workarounds/003.pdf")));
}

#[test]
fn test_problem_update_keeps_missing_workarounds() {
    let mut items: Vec<Problem> = Vec::new();
    create(&mut items, testing_createset(), 9, String::from("now")).unwrap();
    let before = load(&items, 9).unwrap();

    let mut u = all_missing_updateset();
    u.status = PatchField::Value(ProblemStatus::KnownError);
    let rec = update(&mut items, 9, u).unwrap();

    assert_eq!(rec.workarounds, before.workarounds);
    assert_eq!(rec.status, ProblemStatus::KnownError);
}

#[test]
fn test_problem_update_null_clears_resolutions() {
    let mut items: Vec<Problem> = Vec::new();
    let mut cs = testing_createset();
    cs.resolutions = Some(String::from("docs.local/resolutions/002.pdf"));
    create(&mut items, cs, 9, String::from("now")).unwrap();

    let mut u = all_missing_updateset();
    u.resolutions = PatchField::Null;
    let rec = update(&mut items, 9, u).unwrap();

    assert_eq!(rec.resolutions, None);
}

#[test]
fn test_problem_update_null_causes_rejected() {
    let mut items: Vec<Problem> = Vec::new();
    create(&mut items, testing_createset(), 9, String::from("now")).unwrap();

    let mut u = all_missing_updateset();
    u.causes = PatchField::Null;
    match update(&mut items, 9, u) {
        Err(Error::ValidationError(f)) => assert_eq!(f, "causes"),
        _ => panic!("expected a validation error"),
    }
}
