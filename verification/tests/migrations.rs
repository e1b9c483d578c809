use agent_of_empires::migrations::{
    environment_entries, plan_environment_migration, plan_yolo_migration, EnvironmentMigration, YoloMigration,
};

fn values(pairs: &[(&str, Option<&str>)]) -> Vec<(String, Option<String>)> {
    pairs.iter().map(|(k, v)| (k.to_string(), v.map(|s| s.to_string()))).collect()
}

#[test]
fn test_migrate_yolo_from_sandbox_to_session() {
    // [sandbox] yolo_mode_default = true, [session] without it.
    assert_eq!(plan_yolo_migration(Some(true), false), YoloMigration::Move { set_in_session: true });
}

#[test]
fn test_migrate_yolo_false_not_set_in_session() {
    assert_eq!(plan_yolo_migration(Some(false), false), YoloMigration::Move { set_in_session: false });
}

#[test]
fn v003_yolo_mode_config_test_migrate_no_sandbox_section() {
    assert_eq!(plan_yolo_migration(None, false), YoloMigration::Skip);
}

#[test]
fn test_migrate_does_not_overwrite_existing_session_value() {
    assert_eq!(plan_yolo_migration(Some(true), true), YoloMigration::Move { set_in_session: false });
}

#[test]
fn test_migrate_env_values_into_environment() {
    let plan = plan_environment_migration(Some(values(&[
        ("GH_TOKEN", Some("$GH_TOKEN")),
        ("MY_VAR", Some("literal_value")),
    ])));
    match plan {
        EnvironmentMigration::Append(entries) => {
            assert_eq!(entries, vec!["GH_TOKEN=$GH_TOKEN", "MY_VAR=literal_value"]);
        },
        _ => panic!("expected entries to append"),
    }
}

#[test]
fn test_migrate_no_environment_values() {
    assert!(matches!(plan_environment_migration(None), EnvironmentMigration::Skip));
}

#[test]
fn test_migrate_empty_environment_values() {
    assert!(matches!(plan_environment_migration(Some(Vec::new())), EnvironmentMigration::RemoveEmpty));
}

#[test]
fn test_migrate_creates_environment_array_if_missing() {
    match plan_environment_migration(Some(values(&[("TOKEN", Some("secret"))]))) {
        EnvironmentMigration::Append(entries) => assert_eq!(entries, vec!["TOKEN=secret"]),
        _ => panic!("expected entries to append"),
    }
}

#[test]
fn v004_unified_environment_test_migrate_no_sandbox_section() {
    assert!(matches!(plan_environment_migration(None), EnvironmentMigration::Skip));
}

#[test]
fn non_string_values_are_dropped() {
    let entries = environment_entries(&values(&[("A", Some("1")), ("N", None), ("B", Some(""))]));
    assert_eq!(entries, vec!["A=1", "B="]);
}
