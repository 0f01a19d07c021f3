use hailsplay::migrate::{plan, version, MigrationError};

fn strings(items: &[&str]) -> Vec<String> {
    items.iter().map(|s| s.to_string()).collect()
}

#[test]
fn version_is_what_comes_before_the_first_underscore() {
    assert_eq!(version("000_create_schema"), "000");
    assert_eq!(version("001_create_archived_media"), "001");
    assert_eq!(version("_x"), "");
    assert_eq!(version("nounderscore"), "nounderscore");
    assert_eq!(version(""), "");
}

#[test]
fn every_migration_runs_on_a_new_database() {
    let names = strings(&["000_create_schema", "001_create_archived_media"]);
    assert_eq!(plan(&names, &Vec::new()).unwrap(), vec![0, 1]);
}

#[test]
fn a_recorded_migration_does_not_run_again() {
    let names = strings(&["000_create_schema", "001_create_archived_media", "002_more"]);
    assert_eq!(plan(&names, &strings(&["000"])).unwrap(), vec![1, 2]);
    assert_eq!(plan(&names, &strings(&["001"])).unwrap(), vec![0, 2]);
    assert_eq!(plan(&names, &strings(&["002", "000", "001"])).unwrap(), Vec::<usize>::new());
    assert_eq!(plan(&Vec::new(), &Vec::new()).unwrap(), Vec::<usize>::new());
}

#[test]
fn unknown_versions_stop_everything() {
    let names = strings(&["000_create_schema"]);
    match plan(&names, &strings(&["000", "007", "009"])) {
        Err(MigrationError::UnknownMigrationsInDatabase(versions)) => assert_eq!(versions, "007, 009"),
        other => panic!("unexpected plan: {:?}", other),
    }
    match plan(&names, &strings(&["123"])) {
        Err(MigrationError::UnknownMigrationsInDatabase(versions)) => assert_eq!(versions, "123"),
        other => panic!("unexpected plan: {:?}", other),
    }
}

#[test]
fn each_migration_accounts_for_one_record() {
    let names = strings(&["000_a", "000_b"]);
    assert_eq!(plan(&names, &strings(&["000"])).unwrap(), vec![1]);
    assert_eq!(plan(&names, &strings(&["000", "000"])).unwrap(), Vec::<usize>::new());
}
