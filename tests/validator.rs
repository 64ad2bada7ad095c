use std::collections::hash_map::DefaultHasher;
use std::hash::{Hash, Hasher};

use object_validator::catalog::{Catalog, FilePathRecord};
use object_validator::job::{
    JobState, Location, ObjectValidatorJob, ObjectValidatorJobInit, StepAction, ValidatorError,
};
use object_validator::path::{build_children_prefix, full_path, resolve_sub_path, starts_with};

fn record(id: u64, mp: &str, name: &str, is_dir: bool, sum: Option<&str>) -> FilePathRecord {
    FilePathRecord {
        id,
        location_id: 1,
        materialized_path: mp.to_string(),
        name: name.to_string(),
        is_dir,
        integrity_checksum: sum.map(|s| s.to_string()),
    }
}

fn sample_catalog() -> Catalog {
    Catalog {
        records: vec![
            record(1, "/", "dir", true, None),
            record(2, "/", "a.txt", false, None),
            record(3, "/", "b.txt", false, Some("deadbeef")),
            record(4, "/dir/", "c.txt", false, None),
        ],
    }
}

fn init_for(sub_path: Option<&str>) -> ObjectValidatorJobInit {
    ObjectValidatorJobInit {
        location: Location { id: 1, path: Some("/loc".to_string()) },
        sub_path: sub_path.map(|s| s.to_string()),
    }
}

fn names(state: &JobState) -> Vec<String> {
    state.steps.iter().map(|r| r.name.clone()).collect()
}

fn checksum_of(catalog: &Catalog, id: u64) -> Option<String> {
    catalog.records.iter().find(|r| r.id == id).unwrap().integrity_checksum.clone()
}

/// Runs every step, handing in `sum-<name>` as the checksum of each file.
fn run_all(job: &ObjectValidatorJob, state: &mut JobState, catalog: &mut Catalog) -> Vec<String> {
    let mut hashed = Vec::new();
    while state.step_number < state.steps.len() {
        match job.execute_step(state, catalog) {
            StepAction::Skip => {
                job.skip_step(state);
            }
            StepAction::Hash { full_path } => {
                let name = state.steps[state.step_number].name.clone();
                job.commit_checksum(state, catalog, format!("sum-{}", name));
                hashed.push(full_path);
            }
        }
    }
    hashed
}

#[test]
fn unscoped_run_plans_files_without_checksum() {
    let job = ObjectValidatorJob::new();
    let mut catalog = sample_catalog();
    let mut state = job.init(init_for(None), &catalog).unwrap();
    assert_eq!(names(&state), vec!["a.txt", "c.txt"]);
    assert_eq!(state.data.task_count, 2);
    assert_eq!(state.data.location_path, "/loc");
    let hashed = run_all(&job, &mut state, &mut catalog);
    assert_eq!(hashed, vec!["/loc/a.txt", "/loc/dir/c.txt"]);
    assert_eq!(checksum_of(&catalog, 2), Some("sum-a.txt".to_string()));
    assert_eq!(checksum_of(&catalog, 3), Some("deadbeef".to_string()));
    assert_eq!(checksum_of(&catalog, 4), Some("sum-c.txt".to_string()));
    assert_eq!(checksum_of(&catalog, 1), None);
}

#[test]
fn scoped_run_plans_only_the_subtree() {
    let job = ObjectValidatorJob::new();
    let catalog = sample_catalog();
    let state = job.init(init_for(Some("dir")), &catalog).unwrap();
    assert_eq!(names(&state), vec!["c.txt"]);
    let state = job.init(init_for(Some("./dir/")), &catalog).unwrap();
    assert_eq!(names(&state), vec!["c.txt"]);
    let state = job.init(init_for(Some("/dir")), &catalog).unwrap();
    assert_eq!(names(&state), vec!["c.txt"]);
}

#[test]
fn empty_root_and_climbing_back_sub_paths_mean_the_whole_location() {
    let job = ObjectValidatorJob::new();
    let catalog = sample_catalog();
    for sp in ["", "/", ".", "dir/.."] {
        let state = job.init(init_for(Some(sp)), &catalog).unwrap();
        assert_eq!(names(&state), vec!["a.txt", "c.txt"]);
    }
}

#[test]
fn sub_path_outside_location_is_refused() {
    let job = ObjectValidatorJob::new();
    let catalog = sample_catalog();
    for sp in ["..", "../other", "dir/../../x"] {
        let r = job.init(init_for(Some(sp)), &catalog);
        assert_eq!(r.err(), Some(ValidatorError::SubPathOutsideLocation));
    }
}

#[test]
fn sub_path_errors() {
    let job = ObjectValidatorJob::new();
    let catalog = sample_catalog();
    assert_eq!(
        job.init(init_for(Some("a.txt")), &catalog).err(),
        Some(ValidatorError::SubPathNotADirectory)
    );
    assert_eq!(
        job.init(init_for(Some("missing")), &catalog).err(),
        Some(ValidatorError::SubPathNotFound)
    );
}

#[test]
fn missing_location_path_is_refused() {
    let job = ObjectValidatorJob::new();
    let catalog = sample_catalog();
    let init = ObjectValidatorJobInit { location: Location { id: 1, path: None }, sub_path: None };
    assert_eq!(job.init(init, &catalog).err(), Some(ValidatorError::MissingField));
}

#[test]
fn other_locations_and_directories_are_not_planned() {
    let job = ObjectValidatorJob::new();
    let mut other = record(9, "/", "z.txt", false, None);
    other.location_id = 2;
    let catalog = Catalog { records: vec![record(1, "/", "d", true, None), other] };
    let state = job.init(init_for(None), &catalog).unwrap();
    assert!(state.steps.is_empty());
    assert_eq!(state.data.task_count, 0);
}

#[test]
fn second_run_has_nothing_to_do() {
    let job = ObjectValidatorJob::new();
    let mut catalog = sample_catalog();
    let mut state = job.init(init_for(None), &catalog).unwrap();
    run_all(&job, &mut state, &mut catalog);
    let before: Vec<_> = catalog.records.clone();
    let mut again = job.init(init_for(None), &catalog).unwrap();
    assert!(again.steps.is_empty());
    run_all(&job, &mut again, &mut catalog);
    assert_eq!(catalog.records, before);
}

#[test]
fn resumed_run_plans_the_remaining_steps() {
    let job = ObjectValidatorJob::new();
    let mut catalog = sample_catalog();
    let mut state = job.init(init_for(None), &catalog).unwrap();
    match job.execute_step(&state, &catalog) {
        StepAction::Hash { full_path } => assert_eq!(full_path, "/loc/a.txt"),
        StepAction::Skip => panic!("first step should be hashed"),
    }
    job.commit_checksum(&mut state, &mut catalog, "x".to_string());
    let resumed = job.init(init_for(None), &catalog).unwrap();
    assert_eq!(names(&resumed), vec!["c.txt"]);
}

#[test]
fn step_raced_by_another_writer_is_skipped() {
    let job = ObjectValidatorJob::new();
    let mut catalog = sample_catalog();
    let mut state = job.init(init_for(None), &catalog).unwrap();
    catalog.records[1].integrity_checksum = Some("other".to_string());
    assert!(matches!(job.execute_step(&state, &catalog), StepAction::Skip));
    assert_eq!(job.skip_step(&mut state), 1);
    assert!(matches!(job.execute_step(&state, &catalog), StepAction::Hash { .. }));
    assert_eq!(checksum_of(&catalog, 2), Some("other".to_string()));
}

#[test]
fn commit_emits_matching_sync_operation() {
    let job = ObjectValidatorJob::new();
    let mut catalog = sample_catalog();
    let mut state = job.init(init_for(Some("dir")), &catalog).unwrap();
    let op = job.commit_checksum(&mut state, &mut catalog, "cafe".to_string());
    assert_eq!(op.record_id, 4);
    assert_eq!(op.field, "integrity_checksum");
    assert_eq!(op.value, serde_json::Value::String("cafe".to_string()));
    assert_eq!(state.step_number, 1);
    assert_eq!(checksum_of(&catalog, 4), Some("cafe".to_string()));
}

#[test]
fn finalize_returns_init_data() {
    let job = ObjectValidatorJob::new();
    let mut catalog = sample_catalog();
    let mut state = job.init(init_for(Some("dir")), &catalog).unwrap();
    run_all(&job, &mut state, &mut catalog);
    let result = job.finalize(&state);
    assert_eq!(result.location.id, 1);
    assert_eq!(result.location.path.as_deref(), Some("/loc"));
    assert_eq!(result.sub_path.as_deref(), Some("dir"));
}

#[test]
fn identity_ignores_location_path() {
    let a = init_for(Some("dir"));
    let mut b = init_for(Some("dir"));
    b.location.path = Some("/elsewhere".to_string());
    assert_eq!(a.identity(), b.identity());
    let hash = |i: &ObjectValidatorJobInit| {
        let mut h = DefaultHasher::new();
        i.identity().hash(&mut h);
        h.finish()
    };
    assert_eq!(hash(&a), hash(&b));
    assert_ne!(a.identity(), init_for(None).identity());
}

#[test]
fn path_helpers() {
    let comps = resolve_sub_path("./a//b/../c/").unwrap();
    assert_eq!(comps, vec!["a", "c"]);
    assert_eq!(build_children_prefix(&comps), "/a/c/");
    assert_eq!(build_children_prefix(&vec![]), "/");
    assert!(resolve_sub_path("a/../..").is_none());
    assert!(starts_with(&"/a/c/d/".to_string(), &"/a/c/".to_string()));
    assert!(!starts_with(&"/a/".to_string(), &"/a/c/".to_string()));
    let root = "/loc/".to_string();
    assert_eq!(full_path(&root, &"/d/".to_string(), &"f.txt".to_string()), "/loc/d/f.txt");
    assert_eq!(full_path(&"".to_string(), &"/".to_string(), &"f".to_string()), "f");
}
