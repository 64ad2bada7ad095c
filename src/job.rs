//! The validator job: planning, one step per file, and finalization.
use vstd::prelude::*;
use vstd::string::StringExecFns;
use crate::catalog::{
    copy_text, dir_exists, entry_exists, has_checksum, select, set_checksum, Catalog, FilePathRecord,
};
use crate::path::{
    build_children_prefix, children_prefix, full_path, join_path, relative_path, resolve_components,
    resolve_sub_path,
};

verus! {

/// serde_json's `Value`, carried opaquely in replication entries.
#[verifier::external_type_specification]
#[verifier::external_body]
pub struct ExJsonValue(serde_json::Value);

/// The JSON value that serde_json makes of a string.
pub uninterp spec fn json_string_of(s: Seq<char>) -> serde_json::Value;

/// Relies on serde_json's `From<String> for Value`, which holds the text as a
/// JSON string; the replication log carries new field values in that form.
#[verifier::external_body]
fn json_string(s: String) -> (r: serde_json::Value)
    ensures
        r == json_string_of(s@),
{
    serde_json::Value::from(s)
}

/// A registered root directory.
#[derive(Debug)]
pub struct Location {
    pub id: i32,
    /// The absolute path of the root; a well-formed location always has one.
    pub path: Option<String>,
}

/// What a validator job is started with.
#[derive(Debug)]
pub struct ObjectValidatorJobInit {
    pub location: Location,
    /// A directory below the root to restrict the job to.
    pub sub_path: Option<String>,
}

/// The fields that identify a job for de-duplication: the location and the
/// sub-path, and nothing else of the init data.
#[derive(Debug, Clone, PartialEq, Eq, Hash)]
pub struct JobIdentity {
    pub location_id: i32,
    pub sub_path: Option<String>,
}

/// What planning resolved: the root's path and the number of steps.
#[derive(Debug)]
pub struct ObjectValidatorJobState {
    pub location_path: String,
    pub task_count: usize,
}

/// The job itself; it holds no data of its own.
#[derive(Debug)]
pub struct ObjectValidatorJob {}

/// A planned job: its init data, what planning resolved, the step queue and
/// the number of steps done.
#[derive(Debug)]
pub struct JobState {
    pub init: ObjectValidatorJobInit,
    pub data: ObjectValidatorJobState,
    pub steps: Vec<FilePathRecord>,
    pub step_number: usize,
}

#[derive(Debug, Clone, PartialEq, Eq)]
pub enum ValidatorError {
    SubPathNotFound,
    SubPathOutsideLocation,
    SubPathNotADirectory,
    /// The init data lacks the location's path.
    MissingField,
    /// Reading a file failed; the path and the system's message.
    FileIO { path: String, message: String },
}

/// What the current step asks of the caller.
#[derive(Debug)]
pub enum StepAction {
    /// The file has a checksum already: nothing to compute.
    Skip,
    /// Compute the checksum of the file at this path and hand it back.
    Hash { full_path: String },
}

/// One field change for the replication log.
#[derive(Debug)]
pub struct SyncOperation {
    pub record_id: u64,
    pub field: String,
    pub value: serde_json::Value,
}

/// The directory a job is restricted to, as the children prefix that the
/// catalog query filters by; `None` for the whole location.
pub open spec fn plan_scope(recs: Seq<FilePathRecord>, init: ObjectValidatorJobInit) -> Result<
    Option<Seq<char>>,
    ValidatorError,
> {
    match init.sub_path {
        None => Ok(None),
        Some(sp) => match resolve_components(sp@) {
            None => Err(ValidatorError::SubPathOutsideLocation),
            Some(comps) => if comps.len() == 0 {
                Ok(None)
            } else {
                let p = children_prefix(comps);
                if dir_exists(recs, init.location.id, p) {
                    Ok(Some(p))
                } else if entry_exists(recs, init.location.id, p) {
                    Err(ValidatorError::SubPathNotADirectory)
                } else {
                    Err(ValidatorError::SubPathNotFound)
                }
            },
        },
    }
}

/// The step queue that planning builds over the catalog's records.
pub open spec fn plan(recs: Seq<FilePathRecord>, init: ObjectValidatorJobInit) -> Result<
    Seq<FilePathRecord>,
    ValidatorError,
> {
    if init.location.path is None {
        Err(ValidatorError::MissingField)
    } else {
        match plan_scope(recs, init) {
            Err(e) => Err(e),
            Ok(scope) => Ok(select(recs, init.location.id, scope)),
        }
    }
}

pub open spec fn current_step(state: JobState) -> FilePathRecord {
    state.steps@[state.step_number as int]
}

/// A step is done when its record had a checksum when it was queued, or has
/// one in the catalog now.
pub open spec fn step_is_done(state: JobState, recs: Seq<FilePathRecord>) -> bool {
    current_step(state).integrity_checksum is Some || has_checksum(recs, current_step(state).id)
}

pub open spec fn step_path(state: JobState) -> Seq<char> {
    join_path(
        state.data.location_path@,
        relative_path(current_step(state).materialized_path@, current_step(state).name@),
    )
}

/// The state after the current step, with nothing else changed.
pub open spec fn advanced(before: JobState, after: JobState) -> bool {
    &&& after.init == before.init
    &&& after.data == before.data
    &&& after.steps == before.steps
    &&& after.step_number == before.step_number + 1
}

/// The catalog's records after one queued step, given the checksum its file
/// has: unchanged when the step is done already, else with the checksum set.
pub open spec fn step_effect(recs: Seq<FilePathRecord>, step: FilePathRecord, sum: String) -> Seq<
    FilePathRecord,
> {
    if step.integrity_checksum is Some || has_checksum(recs, step.id) {
        recs
    } else {
        set_checksum(recs, step.id, sum)
    }
}

/// The catalog's records after the first `k` steps of `steps` were executed,
/// step `j` with `sums[j]` as its file's checksum. Each step is what
/// `execute_step` decides followed by `skip_step` or `commit_checksum`.
pub open spec fn run_steps(
    recs: Seq<FilePathRecord>,
    steps: Seq<FilePathRecord>,
    sums: Seq<String>,
    k: nat,
) -> Seq<FilePathRecord>
    decreases k,
{
    if k == 0 || k > steps.len() || k > sums.len() {
        recs
    } else {
        step_effect(run_steps(recs, steps, sums, (k - 1) as nat), steps[k - 1], sums[k - 1])
    }
}

impl Location {
    pub fn duplicate(&self) -> (r: Location)
        ensures
            r == *self,
    {
        Location { id: self.id, path: copy_text(&self.path) }
    }
}

impl ObjectValidatorJobInit {
    pub fn duplicate(&self) -> (r: ObjectValidatorJobInit)
        ensures
            r == *self,
    {
        ObjectValidatorJobInit { location: self.location.duplicate(), sub_path: copy_text(&self.sub_path) }
    }

    /// The key by which the scheduler tells two submissions apart.
    pub fn identity(&self) -> (r: JobIdentity)
        ensures
            r.location_id == self.location.id,
            r.sub_path == self.sub_path,
    {
        JobIdentity { location_id: self.location.id, sub_path: copy_text(&self.sub_path) }
    }
}

impl ObjectValidatorJob {
    pub fn new() -> (r: ObjectValidatorJob) {
        ObjectValidatorJob {  }
    }

    /// Plans the job: checks the init data and the sub-path, then queues the
    /// files of the location (below the sub-path's directory when there is
    /// one) that have no checksum. Reads the catalog only.
    pub fn init(&self, init: ObjectValidatorJobInit, catalog: &Catalog) -> (r: Result<JobState, ValidatorError>)
        ensures
            match plan(catalog.records@, init) {
                Ok(s) => match r {
                    Ok(st) => {
                        &&& st.init == init
                        &&& st.steps@ == s
                        &&& st.step_number == 0
                        &&& st.data.task_count == s.len()
                        &&& init.location.path == Some(st.data.location_path)
                    },
                    Err(_) => false,
                },
                Err(e) => r == Err::<JobState, ValidatorError>(e),
            },
    {
        let location_path = match &init.location.path {
            Some(p) => p.clone(),
            None => {
                return Err(ValidatorError::MissingField);
            },
        };
        let scope: Option<String> = match &init.sub_path {
            None => None,
            Some(sp) => match resolve_sub_path(sp.as_str()) {
                None => {
                    return Err(ValidatorError::SubPathOutsideLocation);
                },
                Some(comps) => {
                    if comps.len() == 0 {
                        None
                    } else {
                        let prefix = build_children_prefix(&comps);
                        match catalog.find_entry(init.location.id, &prefix) {
                            Some(true) => Some(prefix),
                            Some(false) => {
                                return Err(ValidatorError::SubPathNotADirectory);
                            },
                            None => {
                                return Err(ValidatorError::SubPathNotFound);
                            },
                        }
                    }
                },
            },
        };
        let steps = catalog.find_unchecksummed(init.location.id, &scope);
        let task_count = steps.len();
        Ok(
            JobState {
                init,
                data: ObjectValidatorJobState { location_path, task_count },
                steps,
                step_number: 0,
            },
        )
    }

    /// Decides the current step: skip it when its file has a checksum
    /// already, else ask for the checksum of the file's absolute path.
    pub fn execute_step(&self, state: &JobState, catalog: &Catalog) -> (r: StepAction)
        requires
            state.step_number < state.steps.len(),
        ensures
            match r {
                StepAction::Skip => step_is_done(*state, catalog.records@),
                StepAction::Hash { full_path } => !step_is_done(*state, catalog.records@)
                    && full_path@ == step_path(*state),
            },
    {
        let step = &state.steps[state.step_number];
        if step.integrity_checksum.is_some() || catalog.checksum_present(step.id) {
            StepAction::Skip
        } else {
            StepAction::Hash {
                full_path: full_path(&state.data.location_path, &step.materialized_path, &step.name),
            }
        }
    }

    /// Stores the checksum computed for the current step on its record,
    /// moves to the next step, and returns the matching replication entry.
    pub fn commit_checksum(&self, state: &mut JobState, catalog: &mut Catalog, checksum: String) -> (op: SyncOperation)
        requires
            old(state).step_number < old(state).steps.len(),
        ensures
            final(catalog).records@ == set_checksum(
                old(catalog).records@,
                current_step(*old(state)).id,
                checksum,
            ),
            !step_is_done(*old(state), old(catalog).records@) ==> final(catalog).records@ == step_effect(
                old(catalog).records@,
                current_step(*old(state)),
                checksum,
            ),
            advanced(*old(state), *final(state)),
            op.record_id == current_step(*old(state)).id,
            op.field@ == "integrity_checksum"@,
            op.value == json_string_of(checksum@),
    {
        let id = state.steps[state.step_number].id;
        catalog.set_checksum(id, &checksum);
        let value = json_string(checksum);
        state.step_number = state.step_number + 1;
        SyncOperation { record_id: id, field: String::from_str("integrity_checksum"), value }
    }

    /// Moves past the current step without touching the catalog; returns the
    /// number of steps done.
    pub fn skip_step(&self, state: &mut JobState) -> (completed: usize)
        requires
            old(state).step_number < old(state).steps.len(),
        ensures
            advanced(*old(state), *final(state)),
            completed == final(state).step_number,
    {
        state.step_number = state.step_number + 1;
        state.step_number
    }

    /// The result of a job whose steps are all done: its init data.
    pub fn finalize(&self, state: &JobState) -> (r: ObjectValidatorJobInit)
        requires
            state.step_number == state.steps.len(),
        ensures
            r == state.init,
    {
        state.init.duplicate()
    }
}

} // verus!
