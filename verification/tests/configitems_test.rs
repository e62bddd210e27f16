use itil_core::configitems::json::{
    createset_from_json, createset_to_json, updateset_from_json, updateset_to_json,
};
use itil_core::configitems::{
    create, delete, load, load_all, update, CIStatus, ConfigItem, ConfigItemCreateset,
    ConfigItemUpdateset,
};
use itil_core::error::Error;
use itil_core::patch::PatchField;

fn all_missing_updateset() -> ConfigItemUpdateset {
    ConfigItemUpdateset {
        name: PatchField::Missing,
        status: PatchField::Missing,
        created_at: PatchField::Missing,
        ci_type: PatchField::Missing,
        owner: PatchField::Missing,
        description: PatchField::Missing,
    }
}

fn testing_createset() -> ConfigItemCreateset {
    ConfigItemCreateset {
        name: String::from("Testing Configuration Item"),
        status: Some(CIStatus::Active),
        created_at: Some(String::from("2023-09-15T12:34:56Z")),
        ci_type: Some(String::from("Testing")),
        owner: Some(String::from("Testing Area")),
        description: String::from("This is a testing configuration item."),
    }
}

#[test]
fn test_serialize_complete_createset() {
    let set = testing_createset();

    let json = createset_to_json(&set);

    assert!(json.contains("\"name\":\"Testing Configuration Item\""));
    assert!(json.contains("\"status\":\"active\""));
    assert!(json.contains("\"created_at\":\"2023-09-15T12:34:56Z\""));
    assert!(json.contains("\"type\":\"Testing\""));
    assert!(json.contains("\"owner\":\"Testing Area\""));
    assert!(json.contains("\"description\":\"This is a testing configuration item.\""));
}

#[test]
fn test_serialize_incomplete_createset() {
    let set = ConfigItemCreateset {
        name: String::from("Testing Configuration Item"),
        status: None,
        created_at: None,
        ci_type: None,
        owner: None,
        description: String::from("This is a testing configuration item."),
    };

    let json = createset_to_json(&set);

    assert!(json.contains("\"name\":\"Testing Configuration Item\""));
    assert!(json.contains("\"status\":null"));
    assert!(json.contains("\"created_at\":null"));
    assert!(json.contains("\"type\":null"));
    assert!(json.contains("\"owner\":null"));
    assert!(json.contains("\"description\":\"This is a testing configuration item.\""));
}

#[test]
fn test_deserialize_complete_createset() {
    let json = r#"
    {
        "name": "T1",
        "status": "maintenance",
        "created_at": "2023-09-15T12:34:56Z",
        "type": "Testing",
        "owner": "Test Area",
        "description": "My desc."
    }"#;

    let set = createset_from_json(json).unwrap();

    assert_eq!(set.name, String::from("T1"));
    assert_eq!(set.status, Some(CIStatus::Maintenance));
    assert_eq!(set.created_at, Some(String::from("2023-09-15T12:34:56Z")));
    assert_eq!(set.ci_type, Some(String::from("Testing")));
    assert_eq!(set.owner, Some(String::from("Test Area")));
    assert_eq!(set.description, String::from("My desc."));
}

#[test]
fn test_deserialize_incomplete_createset() {
    let json = r#"
    {
        "name": "T1",
        "status": null,
        "created_at": null,
        "type": null,
        "description": ""
    }"#;

    let changeset = createset_from_json(json).unwrap();

    assert_eq!(changeset.name, String::from("T1"));
    assert_eq!(changeset.status, None);
    assert_eq!(changeset.created_at, None);
    assert_eq!(changeset.ci_type, None);
    assert_eq!(changeset.owner, None);
    assert_eq!(changeset.description, String::from(""));
}

#[test]
fn test_serialize_complete_updateset() {
    let set = ConfigItemUpdateset {
        name: PatchField::Value(String::from("Testing Configuration Item")),
        status: PatchField::Value(CIStatus::Active),
        created_at: PatchField::Value(String::from("2023-09-15T12:34:56Z")),
        ci_type: PatchField::Value(String::from("Testing")),
        owner: PatchField::Value(String::from("Testing Area")),
        description: PatchField::Value(String::from("This is a testing configuration item.")),
    };

    let json = updateset_to_json(&set);

    assert!(json.contains("\"name\":\"Testing Configuration Item\""));
    assert!(json.contains("\"status\":\"active\""));
    assert!(json.contains("\"created_at\":\"2023-09-15T12:34:56Z\""));
    assert!(json.contains("\"type\":\"Testing\""));
    assert!(json.contains("\"owner\":\"Testing Area\""));
    assert!(json.contains("\"description\":\"This is a testing configuration item.\""));
}

#[test]
fn test_serialize_complete_updateset_with_nulls() {
    let set = ConfigItemUpdateset {
        name: PatchField::Null,
        status: PatchField::Null,
        created_at: PatchField::Null,
        ci_type: PatchField::Null,
        owner: PatchField::Null,
        description: PatchField::Null,
    };

    let json = updateset_to_json(&set);

    assert!(json.contains("\"name\":null"));
    assert!(json.contains("\"status\":null"));
    assert!(json.contains("\"created_at\":null"));
    assert!(json.contains("\"type\":null"));
    assert!(json.contains("\"owner\":null"));
    assert!(json.contains("\"description\":null"));
}

#[test]
fn test_serialize_empty_updateset() {
    let set = all_missing_updateset();

    let json = updateset_to_json(&set);

    assert_eq!(json, "{}");
}

#[test]
fn test_deserialize_complete_updateset() {
    let json = r#"
    {
        "name": "T1",
        "status": "maintenance",
        "created_at": "2023-09-15T12:34:56Z",
        "type": "Testing",
        "owner": "Test Area",
        "description": "My desc."
    }"#;

    let set = updateset_from_json(json).unwrap();

    assert_eq!(set.name, PatchField::Value(String::from("T1")));
    assert_eq!(set.status, PatchField::Value(CIStatus::Maintenance));
    assert_eq!(
        set.created_at,
        PatchField::Value(String::from("2023-09-15T12:34:56Z"))
    );
    assert_eq!(set.ci_type, PatchField::Value(String::from("Testing")));
    assert_eq!(set.owner, PatchField::Value(String::from("Test Area")));
    assert_eq!(set.description, PatchField::Value(String::from("My desc.")));
}

#[test]
fn test_deserialize_complete_updateset_with_nulls() {
    let json = r#"
    {
        "name": null,
        "status": null,
        "created_at": null,
        "type": null,
        "owner": null,
        "description": null
    }"#;

    let set = updateset_from_json(json).unwrap();

    assert_eq!(set.name, PatchField::Null);
    assert_eq!(set.status, PatchField::Null);
    assert_eq!(set.created_at, PatchField::Null);
    assert_eq!(set.ci_type, PatchField::Null);
    assert_eq!(set.owner, PatchField::Null);
    assert_eq!(set.description, PatchField::Null);
}

#[test]
fn test_deserialize_empty_updateset() {
    let json = r#"{}"#;

    let set = updateset_from_json(json).unwrap();

    assert_eq!(set.name, PatchField::Missing);
    assert_eq!(set.status, PatchField::Missing);
    assert_eq!(set.created_at, PatchField::Missing);
    assert_eq!(set.ci_type, PatchField::Missing);
    assert_eq!(set.owner, PatchField::Missing);
    assert_eq!(set.description, PatchField::Missing);
}

#[test]
fn test_complete_ci_equals() {
    let id: u128 = 0x550e8400_e29b_41d4_a716_446655440000;
    let datetime = String::from("2024-05-01T09:00:00Z");

    let ci_1 = ConfigItem {
        name: String::from("x"),
        status: CIStatus::Maintenance,
        id,
        created_at: datetime.clone(),
        ci_type: Some(String::from("x")),
        owner: Some(String::from("x")),
        description: String::from("x"),
    };
    let ci_2 = ConfigItem {
        name: String::from("x"),
        status: CIStatus::Maintenance,
        id,
        created_at: datetime.clone(),
        ci_type: Some(String::from("x")),
        owner: Some(String::from("x")),
        description: String::from("x"),
    };

    assert_eq!(ci_1, ci_2);
}

#[test]
fn test_create_applies_default_status() {
    let mut items: Vec<ConfigItem> = Vec::new();
    let cs = ConfigItemCreateset {
        name: String::from("IBM 5100"),
        status: None,
        created_at: None,
        ci_type: None,
        owner: None,
        description: String::from("Retro portable computer."),
    };

    let rec = create(&mut items, cs, 1, String::from("2024-05-01T09:00:00Z")).unwrap();

    assert_eq!(rec.status, CIStatus::Inactive);
    assert_eq!(rec.created_at, "2024-05-01T09:00:00Z");
    assert_eq!(items.len(), 1);
    assert_eq!(load(&items, 1).unwrap(), rec);
}

#[test]
fn test_update_all_missing_is_identity() {
    let mut items: Vec<ConfigItem> = Vec::new();
    create(&mut items, testing_createset(), 7, String::from("now")).unwrap();
    let before = load(&items, 7).unwrap();

    let after = update(&mut items, 7, all_missing_updateset()).unwrap();

    assert_eq!(after, before);
    assert_eq!(load(&items, 7).unwrap(), before);
}

#[test]
fn test_update_null_clears_optional_fields() {
    let mut items: Vec<ConfigItem> = Vec::new();
    create(&mut items, testing_createset(), 7, String::from("now")).unwrap();

    let mut u = all_missing_updateset();
    u.owner = PatchField::Null;
    u.ci_type = PatchField::Null;
    let after = update(&mut items, 7, u).unwrap();

    assert_eq!(after.owner, None);
    assert_eq!(after.ci_type, None);
    assert_eq!(after.name, "Testing Configuration Item");
}

#[test]
fn test_update_null_required_field_rejected() {
    let mut items: Vec<ConfigItem> = Vec::new();
    create(&mut items, testing_createset(), 7, String::from("now")).unwrap();
    let before = load(&items, 7).unwrap();

    let mut u = all_missing_updateset();
    u.name = PatchField::Null;
    let res = update(&mut items, 7, u);

    match res {
        Err(Error::ValidationError(f)) => assert_eq!(f, "name"),
        _ => panic!("expected a validation error"),
    }
    assert_eq!(load(&items, 7).unwrap(), before);
}

#[test]
fn test_update_twice_is_idempotent() {
    let mut items: Vec<ConfigItem> = Vec::new();
    create(&mut items, testing_createset(), 7, String::from("now")).unwrap();

    let make_update = || ConfigItemUpdateset {
        name: PatchField::Value(String::from("Renamed")),
        status: PatchField::Value(CIStatus::Retired),
        created_at: PatchField::Missing,
        ci_type: PatchField::Null,
        owner: PatchField::Missing,
        description: PatchField::Value(String::from("Updated.")),
    };
    let once = update(&mut items, 7, make_update()).unwrap();
    let twice = update(&mut items, 7, make_update()).unwrap();

    assert_eq!(twice, once);
    assert_eq!(load(&items, 7).unwrap(), once);
}

#[test]
fn test_create_rejects_empty_name() {
    let mut items: Vec<ConfigItem> = Vec::new();
    let mut cs = testing_createset();
    cs.name = String::new();

    let res = create(&mut items, cs, 1, String::from("now"));

    match res {
        Err(Error::ValidationError(f)) => assert_eq!(f, "name"),
        _ => panic!("expected a validation error"),
    }
    assert!(items.is_empty());
}

#[test]
fn test_create_rejects_long_fields() {
    let mut items: Vec<ConfigItem> = Vec::new();

    let mut cs = testing_createset();
    cs.name = "x".repeat(256);
    match create(&mut items, cs, 1, String::from("now")) {
        Err(Error::ValidationError(f)) => assert_eq!(f, "name"),
        _ => panic!("expected a validation error"),
    }

    let mut cs = testing_createset();
    cs.name = "x".repeat(255);
    cs.description = "y".repeat(1025);
    match create(&mut items, cs, 1, String::from("now")) {
        Err(Error::ValidationError(f)) => assert_eq!(f, "description"),
        _ => panic!("expected a validation error"),
    }

    let mut cs = testing_createset();
    cs.name = "x".repeat(255);
    cs.description = "y".repeat(1024);
    assert!(create(&mut items, cs, 1, String::from("now")).is_ok());
}

#[test]
fn test_create_duplicate_id_is_storage_error() {
    let mut items: Vec<ConfigItem> = Vec::new();
    create(&mut items, testing_createset(), 1, String::from("now")).unwrap();

    let res = create(&mut items, testing_createset(), 1, String::from("now"));

    assert!(matches!(res, Err(Error::StorageError)));
    assert_eq!(items.len(), 1);
}

#[test]
fn test_load_missing_is_not_found() {
    let items: Vec<ConfigItem> = Vec::new();
    assert!(matches!(load(&items, 42), Err(Error::NotFound)));
}

#[test]
fn test_delete_removes_the_record() {
    let mut items: Vec<ConfigItem> = Vec::new();
    create(&mut items, testing_createset(), 1, String::from("now")).unwrap();

    delete(&mut items, 1).unwrap();

    assert!(load_all(&items).is_empty());
    assert!(matches!(delete(&mut items, 1), Err(Error::NotFound)));
}

#[test]
fn test_updateset_json_escape_roundtrip() {
    let mut u = all_missing_updateset();
    u.owner = PatchField::Value(String::from("a\"b\\c\nd\te"));

    let json = updateset_to_json(&u);
    let back = updateset_from_json(&json).unwrap();

    assert_eq!(back.owner, PatchField::Value(String::from("a\"b\\c\nd\te")));
    assert_eq!(back.name, PatchField::Missing);
}

#[test]
fn test_updateset_from_json_rejects_bad_input() {
    assert!(updateset_from_json("not json").is_none());
    assert!(updateset_from_json("{\"status\":\"bogus\"}").is_none());
    assert!(updateset_from_json("{\"name\":\"x\"").is_none());
    assert!(updateset_from_json("{} trailing").is_none());
}

#[test]
fn test_updateset_from_json_last_duplicate_key_wins() {
    let set = updateset_from_json(r#"{"owner": "a", "owner": null}"#).unwrap();
    assert_eq!(set.owner, PatchField::Null);

    let set = updateset_from_json(r#"{"owner": null, "owner": "b"}"#).unwrap();
    assert_eq!(set.owner, PatchField::Value(String::from("b")));
}
